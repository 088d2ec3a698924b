//! The wire format of signaling messages: one JSON object per text frame,
//! `{"version":1,"type":"<tag>","payload":{<fields>}}`, fields in a fixed
//! order, every value a JSON string.

use vstd::prelude::*;
use crate::ids::strs;
use crate::signaling_msgs::{ErrorCode, SignalingMessage, SignalingView};
use vstd::std_specs::iter::IteratorSpec;
use vstd::string::StringExecFns;

verus! {

broadcast use vstd::string::group_string_axioms;

/// The hexadecimal digit of `n`, lower case.
pub open spec fn hex_char(n: u32) -> char {
    if n == 0 { '0' } else if n == 1 { '1' } else if n == 2 { '2' } else if n == 3 { '3' }
    else if n == 4 { '4' } else if n == 5 { '5' } else if n == 6 { '6' } else if n == 7 { '7' }
    else if n == 8 { '8' } else if n == 9 { '9' } else if n == 10 { 'a' } else if n == 11 { 'b' }
    else if n == 12 { 'c' } else if n == 13 { 'd' } else if n == 14 { 'e' } else { 'f' }
}

/// The value of a lower-case hexadecimal digit.
pub open spec fn hex_value(c: char) -> Option<u32> {
    if c == '0' { Some(0) } else if c == '1' { Some(1) } else if c == '2' { Some(2) }
    else if c == '3' { Some(3) } else if c == '4' { Some(4) } else if c == '5' { Some(5) }
    else if c == '6' { Some(6) } else if c == '7' { Some(7) } else if c == '8' { Some(8) }
    else if c == '9' { Some(9) } else if c == 'a' { Some(10) } else if c == 'b' { Some(11) }
    else if c == 'c' { Some(12) } else if c == 'd' { Some(13) } else if c == 'e' { Some(14) }
    else if c == 'f' { Some(15) } else { None }
}

/// How one character is written inside a JSON string.
pub open spec fn escape_char(c: char) -> Seq<char> {
    if c == '"' {
        seq!['\\', '"']
    } else if c == '\\' {
        seq!['\\', '\\']
    } else if c == '\n' {
        seq!['\\', 'n']
    } else if c == '\r' {
        seq!['\\', 'r']
    } else if c == '\t' {
        seq!['\\', 't']
    } else if c == '\x08' {
        seq!['\\', 'b']
    } else if c == '\x0c' {
        seq!['\\', 'f']
    } else if (c as u32) < 0x20 {
        seq!['\\', 'u', '0', '0', hex_char((c as u32) / 16), hex_char((c as u32) % 16)]
    } else {
        seq![c]
    }
}

/// The body of a JSON string holding `s`.
pub open spec fn escape(s: Seq<char>) -> Seq<char>
    decreases s.len(),
{
    if s.len() == 0 {
        seq![]
    } else {
        escape_char(s[0]) + escape(s.drop_first())
    }
}

/// `s` as a JSON string.
pub open spec fn quoted(s: Seq<char>) -> Seq<char> {
    seq!['"'] + escape(s) + seq!['"']
}

pub open spec fn head() -> Seq<char> {
    "{\"version\":1,\"type\":"@
}

pub open spec fn middle() -> Seq<char> {
    ",\"payload\":{"@
}

pub open spec fn tail() -> Seq<char> {
    "}}"@
}

/// The name of an error code on the wire.
pub open spec fn code_name(c: ErrorCode) -> Seq<char> {
    match c {
        ErrorCode::Protocol => "protocol"@,
        ErrorCode::ExpectedRegister => "expected_register"@,
        ErrorCode::SlowConsumer => "slow_consumer"@,
        ErrorCode::NoWorker => "no_worker"@,
        ErrorCode::Unexpected => "unexpected"@,
        ErrorCode::WorkerGone => "worker_gone"@,
    }
}

/// The tag of a message on the wire.
pub open spec fn tag_of(m: SignalingView) -> Seq<char> {
    match m {
        SignalingView::ServerRegister { .. } => "server_register"@,
        SignalingView::ServerRegistered { .. } => "server_registered"@,
        SignalingView::ServerDisconnect { .. } => "server_disconnect"@,
        SignalingView::ClientConnect { .. } => "client_connect"@,
        SignalingView::ClientConnected { .. } => "client_connected"@,
        SignalingView::ClientDisconnect { .. } => "client_disconnect"@,
        SignalingView::Offer { .. } => "offer"@,
        SignalingView::Answer { .. } => "answer"@,
        SignalingView::IceCandidate { .. } => "ice_candidate"@,
        SignalingView::Error { .. } => "error"@,
    }
}

/// The field names that a tag's payload carries, in order.
pub open spec fn names_for(tag: Seq<char>) -> Option<Seq<Seq<char>>> {
    if tag == "server_register"@ || tag == "server_registered"@ || tag == "server_disconnect"@ {
        Some(seq!["server_id"@])
    } else if tag == "client_connect"@ || tag == "client_disconnect"@ {
        Some(seq!["client_id"@])
    } else if tag == "client_connected"@ {
        Some(seq!["client_id"@, "server_id"@])
    } else if tag == "offer"@ || tag == "answer"@ {
        Some(seq!["from"@, "to"@, "sdp"@])
    } else if tag == "ice_candidate"@ {
        Some(seq!["from"@, "to"@, "candidate"@])
    } else if tag == "error"@ {
        Some(seq!["code"@, "message"@])
    } else {
        None
    }
}

/// The payload values of a message, in the order of `names_for`.
pub open spec fn values_of(m: SignalingView) -> Seq<Seq<char>> {
    match m {
        SignalingView::ServerRegister { server_id } => seq![server_id],
        SignalingView::ServerRegistered { server_id } => seq![server_id],
        SignalingView::ServerDisconnect { server_id } => seq![server_id],
        SignalingView::ClientConnect { client_id } => seq![client_id],
        SignalingView::ClientConnected { client_id, server_id } => seq![client_id, server_id],
        SignalingView::ClientDisconnect { client_id } => seq![client_id],
        SignalingView::Offer { from, to, sdp } => seq![from, to, sdp],
        SignalingView::Answer { from, to, sdp } => seq![from, to, sdp],
        SignalingView::IceCandidate { from, to, candidate } => seq![from, to, candidate],
        SignalingView::Error { code, message } => seq![code_name(code), message],
    }
}

/// Payload members `"name":"value"` joined by commas.
pub open spec fn members(names: Seq<Seq<char>>, values: Seq<Seq<char>>) -> Seq<char>
    decreases names.len(),
{
    if names.len() == 0 {
        seq![]
    } else {
        let first = quoted(names[0]) + seq![':'] + quoted(values[0]);
        if names.len() == 1 {
            first
        } else {
            first + seq![','] + members(names.drop_first(), values.drop_first())
        }
    }
}

/// The field names of a message's payload, in order.
pub open spec fn field_names(m: SignalingView) -> Seq<Seq<char>> {
    match m {
        SignalingView::ServerRegister { .. } | SignalingView::ServerRegistered { .. }
        | SignalingView::ServerDisconnect { .. } => seq!["server_id"@],
        SignalingView::ClientConnect { .. } | SignalingView::ClientDisconnect { .. } => seq![
            "client_id"@,
        ],
        SignalingView::ClientConnected { .. } => seq!["client_id"@, "server_id"@],
        SignalingView::Offer { .. } | SignalingView::Answer { .. } => seq!["from"@, "to"@, "sdp"@],
        SignalingView::IceCandidate { .. } => seq!["from"@, "to"@, "candidate"@],
        SignalingView::Error { .. } => seq!["code"@, "message"@],
    }
}

/// The text frame of a message.
pub open spec fn encoding(m: SignalingView) -> Seq<char> {
    head() + quoted(tag_of(m)) + middle() + members(field_names(m), values_of(m)) + tail()
}

// ---- decoding, as it is done: left to right, one character at a time ----

/// `lit` stands in `t` at `p`: the position after it.
pub open spec fn parse_lit(t: Seq<char>, p: int, lit: Seq<char>) -> Option<int> {
    if 0 <= p && p + lit.len() <= t.len() && t.subrange(p, p + lit.len()) == lit {
        Some(p + lit.len())
    } else {
        None
    }
}

/// The rest of a JSON string body from `i` on, after `acc` was read: the
/// string and the position after its closing quote.
pub open spec fn parse_str(t: Seq<char>, i: int, acc: Seq<char>) -> Option<(Seq<char>, int)>
    decreases t.len() - i,
{
    if i < 0 || i >= t.len() {
        None
    } else if t[i] == '"' {
        Some((acc, i + 1))
    } else if t[i] == '\\' {
        if i + 1 >= t.len() {
            None
        } else {
            let d = t[i + 1];
            if d == '"' || d == '\\' || d == '/' {
                parse_str(t, i + 2, acc.push(d))
            } else if d == 'n' {
                parse_str(t, i + 2, acc.push('\n'))
            } else if d == 'r' {
                parse_str(t, i + 2, acc.push('\r'))
            } else if d == 't' {
                parse_str(t, i + 2, acc.push('\t'))
            } else if d == 'b' {
                parse_str(t, i + 2, acc.push('\x08'))
            } else if d == 'f' {
                parse_str(t, i + 2, acc.push('\x0c'))
            } else if d == 'u' && i + 5 < t.len() && t[i + 2] == '0' && t[i + 3] == '0'
                && hex_value(t[i + 4]) is Some && hex_value(t[i + 5]) is Some && hex_value(
                t[i + 4],
            )->0 < 2 {
                let v = hex_value(t[i + 4])->0 * 16 + hex_value(t[i + 5])->0;
                parse_str(t, i + 6, acc.push(v as char))
            } else {
                None
            }
        }
    } else if (t[i] as u32) < 0x20 {
        None
    } else {
        parse_str(t, i + 1, acc.push(t[i]))
    }
}

/// A JSON string starting at `p`.
pub open spec fn parse_quoted(t: Seq<char>, p: int) -> Option<(Seq<char>, int)> {
    if 0 <= p < t.len() && t[p] == '"' {
        parse_str(t, p + 1, seq![])
    } else {
        None
    }
}

/// Members named `names` in order from `p`, the first without a leading
/// comma when `first`: their values and the position after them.
pub open spec fn parse_members(t: Seq<char>, p: int, names: Seq<Seq<char>>, first: bool) -> Option<
    (Seq<Seq<char>>, int),
>
    decreases names.len(),
{
    if names.len() == 0 {
        Some((seq![], p))
    } else {
        let start = if first {
            Some(p)
        } else {
            parse_lit(t, p, seq![','])
        };
        match start {
            None => None,
            Some(p1) => match parse_quoted(t, p1) {
                None => None,
                Some((name, p2)) => if name != names[0] {
                    None
                } else {
                    match parse_lit(t, p2, seq![':']) {
                        None => None,
                        Some(p3) => match parse_quoted(t, p3) {
                            None => None,
                            Some((value, p4)) => match parse_members(t, p4, names.drop_first(), false) {
                                None => None,
                                Some((rest, p5)) => Some((seq![value] + rest, p5)),
                            },
                        },
                    }
                },
            },
        }
    }
}

/// The error code named `n`.
pub open spec fn code_of(n: Seq<char>) -> Option<ErrorCode> {
    if n == "protocol"@ {
        Some(ErrorCode::Protocol)
    } else if n == "expected_register"@ {
        Some(ErrorCode::ExpectedRegister)
    } else if n == "slow_consumer"@ {
        Some(ErrorCode::SlowConsumer)
    } else if n == "no_worker"@ {
        Some(ErrorCode::NoWorker)
    } else if n == "unexpected"@ {
        Some(ErrorCode::Unexpected)
    } else if n == "worker_gone"@ {
        Some(ErrorCode::WorkerGone)
    } else {
        None
    }
}

/// The message with tag `tag` and payload values `v`.
pub open spec fn build(tag: Seq<char>, v: Seq<Seq<char>>) -> Option<SignalingView> {
    if tag == "server_register"@ {
        Some(SignalingView::ServerRegister { server_id: v[0] })
    } else if tag == "server_registered"@ {
        Some(SignalingView::ServerRegistered { server_id: v[0] })
    } else if tag == "server_disconnect"@ {
        Some(SignalingView::ServerDisconnect { server_id: v[0] })
    } else if tag == "client_connect"@ {
        Some(SignalingView::ClientConnect { client_id: v[0] })
    } else if tag == "client_connected"@ {
        Some(SignalingView::ClientConnected { client_id: v[0], server_id: v[1] })
    } else if tag == "client_disconnect"@ {
        Some(SignalingView::ClientDisconnect { client_id: v[0] })
    } else if tag == "offer"@ {
        Some(SignalingView::Offer { from: v[0], to: v[1], sdp: v[2] })
    } else if tag == "answer"@ {
        Some(SignalingView::Answer { from: v[0], to: v[1], sdp: v[2] })
    } else if tag == "ice_candidate"@ {
        Some(SignalingView::IceCandidate { from: v[0], to: v[1], candidate: v[2] })
    } else {
        match code_of(v[0]) {
            Some(code) => Some(SignalingView::Error { code, message: v[1] }),
            None => None,
        }
    }
}

/// The message a text frame holds, if it holds one.
pub open spec fn decoding(t: Seq<char>) -> Option<SignalingView> {
    match parse_lit(t, 0, head()) {
        None => None,
        Some(p1) => match parse_quoted(t, p1) {
            None => None,
            Some((tag, p2)) => match names_for(tag) {
                None => None,
                Some(names) => match parse_lit(t, p2, middle()) {
                    None => None,
                    Some(p3) => match parse_members(t, p3, names, true) {
                        None => None,
                        Some((values, p4)) => match parse_lit(t, p4, tail()) {
                            None => None,
                            Some(p5) => if p5 == t.len() {
                                build(tag, values)
                            } else {
                                None
                            },
                        },
                    },
                },
            },
        },
    }
}

// ---- what decoding makes of an encoding ----

proof fn lemma_hex(n: u32)
    requires
        n < 16,
    ensures
        hex_value(hex_char(n)) == Some(n),
{
}

/// Parsing an escaped string followed by its closing quote gives the
/// string back.
proof fn lemma_parse_escaped(t: Seq<char>, i: int, acc: Seq<char>, s: Seq<char>)
    requires
        0 <= i,
        i + escape(s).len() + 1 <= t.len(),
        t.subrange(i, i + escape(s).len() + 1) == escape(s) + seq!['"'],
    ensures
        parse_str(t, i, acc) == Some((acc + s, i + escape(s).len() + 1)),
    decreases s.len(),
{
    let e = escape(s);
    if s.len() == 0 {
        assert(t[i] == (e + seq!['"'])[0]);
        assert(acc + s =~= acc);
    } else {
        let c = s[0];
        let ec = escape_char(c);
        let rest = s.drop_first();
        let er = escape(rest);
        assert(e == ec + er);
        let n = ec.len() as int;
        assert forall|k: int| 0 <= k < n implies t[i + k] == ec[k] by {
            assert(t.subrange(i, i + e.len() + 1)[k] == (e + seq!['"'])[k]);
        }
        assert(t.subrange(i + n, i + n + er.len() + 1) =~= er + seq!['"']) by {
            assert forall|k: int| 0 <= k < er.len() + 1 implies t.subrange(i + n, i + n + er.len() + 1)[k]
                == (er + seq!['"'])[k] by {
                assert(t.subrange(i, i + e.len() + 1)[n + k] == (e + seq!['"'])[n + k]);
            }
        }
        lemma_parse_escaped(t, i + n, acc.push(c), rest);
        assert(acc.push(c) + rest =~= acc + s);
        let v = c as u32;
        if c == '"' || c == '\\' || c == '\n' || c == '\r' || c == '\t' || c == '\x08' || c == '\x0c' {
            assert(t[i] == '\\');
            assert(n == 2);
        } else if v < 0x20 {
            assert(n == 6);
            assert(t[i] == '\\' && t[i + 1] == 'u' && t[i + 2] == '0' && t[i + 3] == '0');
            lemma_hex(v / 16);
            lemma_hex(v % 16);
            assert(t[i + 4] == hex_char(v / 16));
            assert(t[i + 5] == hex_char(v % 16));
            assert(hex_value(t[i + 4])->0 * 16 + hex_value(t[i + 5])->0 == v);
            vstd::utf8::char_u32_cast(c, v);
            assert((v as char) == c);
        } else {
            assert(ec == seq![c]);
            assert(n == 1);
            assert(t[i + 0] == ec[0]);
            assert(t[i] == c);
        }
    }
}

/// `lit` is found where it stands.
proof fn lemma_parse_lit(t: Seq<char>, p: int, lit: Seq<char>)
    requires
        0 <= p,
        p + lit.len() <= t.len(),
        t.subrange(p, p + lit.len()) == lit,
    ensures
        parse_lit(t, p, lit) == Some(p + lit.len()),
{
}

/// A quoted string is parsed back.
proof fn lemma_parse_quoted(t: Seq<char>, p: int, s: Seq<char>)
    requires
        0 <= p,
        p + quoted(s).len() <= t.len(),
        t.subrange(p, p + quoted(s).len()) == quoted(s),
    ensures
        parse_quoted(t, p) == Some((s, p + quoted(s).len())),
{
    let q = quoted(s);
    assert(t[p] == q[0]);
    assert(t.subrange(p + 1, p + 1 + escape(s).len() + 1) =~= escape(s) + seq!['"']) by {
        assert forall|k: int| 0 <= k < escape(s).len() + 1 implies t.subrange(
            p + 1,
            p + 1 + escape(s).len() + 1,
        )[k] == (escape(s) + seq!['"'])[k] by {
            assert(t.subrange(p, p + q.len())[1 + k] == q[1 + k]);
        }
    }
    lemma_parse_escaped(t, p + 1, seq![], s);
    assert(seq![] + s =~= s);
}

/// `t` holds `x` at `p`, and `x` is `a + b`: it holds `a` at `p` and `b`
/// right after.
proof fn lemma_split(t: Seq<char>, p: int, a: Seq<char>, b: Seq<char>)
    requires
        0 <= p,
        p + a.len() + b.len() <= t.len(),
        t.subrange(p, p + a.len() + b.len()) == a + b,
    ensures
        t.subrange(p, p + a.len()) == a,
        t.subrange(p + a.len(), p + a.len() + b.len()) == b,
{
    let la = a.len() as int;
    let lb = b.len() as int;
    let whole = t.subrange(p, p + la + lb);
    assert forall|k: int| 0 <= k < la + lb implies #[trigger] t[p + k] == (a + b)[k] by {
        assert(whole[k] == t[p + k]);
    }
    assert(t.subrange(p, p + la) =~= a) by {
        assert forall|k: int| 0 <= k < la implies t.subrange(p, p + la)[k] == a[k] by {
            assert(t[p + k] == (a + b)[k]);
        }
    }
    assert(t.subrange(p + la, p + la + lb) =~= b) by {
        assert forall|k: int| 0 <= k < lb implies t.subrange(p + la, p + la + lb)[k] == b[k] by {
            assert(t[p + (la + k)] == (a + b)[la + k]);
        }
    }
}

/// What precedes the members that `parse_members` reads from `p`.
pub open spec fn members_text(names: Seq<Seq<char>>, values: Seq<Seq<char>>, first: bool) -> Seq<char> {
    if first || names.len() == 0 {
        members(names, values)
    } else {
        seq![','] + members(names, values)
    }
}

/// Members written in order are read back in order.
proof fn lemma_parse_members(
    t: Seq<char>,
    p: int,
    names: Seq<Seq<char>>,
    values: Seq<Seq<char>>,
    first: bool,
)
    requires
        0 <= p,
        names.len() == values.len(),
        p + members_text(names, values, first).len() <= t.len(),
        t.subrange(p, p + members_text(names, values, first).len()) == members_text(names, values, first),
    ensures
        parse_members(t, p, names, first) == Some((values, p + members_text(names, values, first).len())),
    decreases names.len(),
{
    if names.len() == 0 {
        assert(values =~= seq![]);
    } else {
        let x = members_text(names, values, first);
        let one = quoted(names[0]) + seq![':'] + quoted(values[0]);
        let rest_text = members_text(names.drop_first(), values.drop_first(), false);
        let lead: Seq<char> = if first { seq![] } else { seq![','] };
        assert(x =~= lead + (quoted(names[0]) + (seq![':'] + (quoted(values[0]) + rest_text))));
        lemma_split(t, p, lead, quoted(names[0]) + (seq![':'] + (quoted(values[0]) + rest_text)));
        let p1 = p + lead.len();
        if !first {
            lemma_parse_lit(t, p, seq![',']);
        }
        lemma_split(t, p1, quoted(names[0]), seq![':'] + (quoted(values[0]) + rest_text));
        lemma_parse_quoted(t, p1, names[0]);
        let p2 = p1 + quoted(names[0]).len();
        lemma_split(t, p2, seq![':'], quoted(values[0]) + rest_text);
        lemma_parse_lit(t, p2, seq![':']);
        let p3 = p2 + 1;
        lemma_split(t, p3, quoted(values[0]), rest_text);
        lemma_parse_quoted(t, p3, values[0]);
        let p4 = p3 + quoted(values[0]).len();
        lemma_parse_members(t, p4, names.drop_first(), values.drop_first(), false);
        assert(seq![values[0]] + values.drop_first() =~= values);
    }
}

/// The tag of a message leads back to its field names and, with its
/// values, to the message.
proof fn lemma_tag(m: SignalingView)
    ensures
        names_for(tag_of(m)) == Some(field_names(m)),
        field_names(m).len() == values_of(m).len(),
        build(tag_of(m), values_of(m)) == Some(m),
{
    reveal_strlit("server_register");
    assert("server_register"@.len() == 15);
    reveal_strlit("server_registered");
    assert("server_registered"@.len() == 17);
    reveal_strlit("server_disconnect");
    assert("server_disconnect"@.len() == 17);
    reveal_strlit("client_connect");
    assert("client_connect"@.len() == 14);
    reveal_strlit("client_connected");
    assert("client_connected"@.len() == 16);
    reveal_strlit("client_disconnect");
    assert("client_disconnect"@.len() == 17);
    reveal_strlit("offer");
    assert("offer"@.len() == 5);
    reveal_strlit("answer");
    assert("answer"@.len() == 6);
    reveal_strlit("ice_candidate");
    assert("ice_candidate"@.len() == 13);
    reveal_strlit("error");
    assert("error"@.len() == 5);
    assert("server_registered"@[7] != "server_disconnect"@[7]);
    assert("server_registered"@[0] != "client_disconnect"@[0]);
    assert("server_disconnect"@[0] != "client_disconnect"@[0]);
    assert("offer"@[0] != "error"@[0]);
    if let SignalingView::Error { code, message } = m {
        reveal_strlit("protocol");
        assert("protocol"@.len() == 8);
        reveal_strlit("expected_register");
        assert("expected_register"@.len() == 17);
        reveal_strlit("slow_consumer");
        assert("slow_consumer"@.len() == 13);
        reveal_strlit("no_worker");
        assert("no_worker"@.len() == 9);
        reveal_strlit("unexpected");
        assert("unexpected"@.len() == 10);
        reveal_strlit("worker_gone");
        assert("worker_gone"@.len() == 11);
        assert(code_of(code_name(code)) == Some(code));
    }
}

/// Decoding the encoding of a message gives the message back.
#[verifier::rlimit(50)]
pub proof fn lemma_decode_encoding(m: SignalingView)
    ensures
        decoding(encoding(m)) == Some(m),
{
    lemma_tag(m);
    let t = encoding(m);
    let tag = tag_of(m);
    let names = names_for(tag)->0;
    let values = values_of(m);
    let mt = members_text(names, values, true);
    assert(mt == members(names, values));
    assert(t =~= head() + (quoted(tag) + (middle() + (mt + tail()))));
    assert(t.subrange(0, t.len() as int) =~= t);
    lemma_split(t, 0, head(), quoted(tag) + (middle() + (mt + tail())));
    lemma_parse_lit(t, 0, head());
    let p1 = head().len() as int;
    lemma_split(t, p1, quoted(tag), middle() + (mt + tail()));
    lemma_parse_quoted(t, p1, tag);
    let p2 = p1 + quoted(tag).len();
    lemma_split(t, p2, middle(), mt + tail());
    lemma_parse_lit(t, p2, middle());
    let p3 = p2 + middle().len();
    lemma_split(t, p3, mt, tail());
    lemma_parse_members(t, p3, names, values, true);
    let p4 = p3 + mt.len();
    lemma_parse_lit(t, p4, tail());
}

/// A message that survives encoding and decoding is written identically
/// when encoded again.
pub proof fn reencoding_is_identical(m: SignalingView)
    ensures
        decoding(encoding(m)) is Some,
        decoding(encoding(m)) matches Some(back) ==> encoding(back) == encoding(m),
{
    lemma_decode_encoding(m);
}

// ---- the encoder and the decoder ----

/// Relies on `String::push`: appends the char at the end.
#[verifier::external_body]
fn push_char(s: &mut String, c: char)
    ensures
        final(s)@ == old(s)@.push(c),
{
    s.push(c);
}

/// The characters of `s`, in order.
pub fn chars_of(s: &str) -> (r: Vec<char>)
    ensures
        r@ == s@,
{
    let mut it = s.chars();
    let mut v: Vec<char> = Vec::new();
    loop
        invariant
            v@ + it.remaining() == s@,
            IteratorSpec::obeys_prophetic_iter_laws(&it),
            IteratorSpec::decrease(&it) is Some,
        ensures
            v@ == s@,
        decreases IteratorSpec::decrease(&it)->0,
    {
        let ghost before = it.remaining();
        match it.next() {
            Some(c) => {
                let ghost v0 = v@;
                v.push(c);
                assert(v@ + it.remaining() =~= v0 + before);
            },
            None => {
                assert(v@ =~= s@);
                break;
            },
        }
    }
    v
}

fn hex_digit(n: u32) -> (c: char)
    requires
        n < 16,
    ensures
        c == hex_char(n),
{
    if n == 0 { '0' } else if n == 1 { '1' } else if n == 2 { '2' } else if n == 3 { '3' }
    else if n == 4 { '4' } else if n == 5 { '5' } else if n == 6 { '6' } else if n == 7 { '7' }
    else if n == 8 { '8' } else if n == 9 { '9' } else if n == 10 { 'a' } else if n == 11 { 'b' }
    else if n == 12 { 'c' } else if n == 13 { 'd' } else if n == 14 { 'e' } else { 'f' }
}

fn hex_digit_value(c: char) -> (r: Option<u32>)
    ensures
        r == hex_value(c),
{
    if c == '0' { Some(0) } else if c == '1' { Some(1) } else if c == '2' { Some(2) }
    else if c == '3' { Some(3) } else if c == '4' { Some(4) } else if c == '5' { Some(5) }
    else if c == '6' { Some(6) } else if c == '7' { Some(7) } else if c == '8' { Some(8) }
    else if c == '9' { Some(9) } else if c == 'a' { Some(10) } else if c == 'b' { Some(11) }
    else if c == 'c' { Some(12) } else if c == 'd' { Some(13) } else if c == 'e' { Some(14) }
    else if c == 'f' { Some(15) } else { None }
}

proof fn lemma_escape_push(a: Seq<char>, c: char)
    ensures
        escape(a.push(c)) == escape(a) + escape_char(c),
    decreases a.len(),
{
    if a.len() == 0 {
        assert(a.push(c).drop_first() =~= seq![]);
        assert(escape(a.push(c).drop_first()) == Seq::<char>::empty());
        assert(escape(a.push(c)) =~= escape_char(c));
        assert(escape(a) + escape_char(c) =~= escape_char(c));
    } else {
        lemma_escape_push(a.drop_first(), c);
        assert(a.push(c).drop_first() =~= a.drop_first().push(c));
        assert(escape(a.push(c)) =~= escape(a) + escape_char(c));
    }
}

fn push_escaped_char(out: &mut String, c: char)
    ensures
        final(out)@ == old(out)@ + escape_char(c),
{
    let ghost o = out@;
    if c == '"' {
        push_char(out, '\\');
        push_char(out, '"');
    } else if c == '\\' {
        push_char(out, '\\');
        push_char(out, '\\');
    } else if c == '\n' {
        push_char(out, '\\');
        push_char(out, 'n');
    } else if c == '\r' {
        push_char(out, '\\');
        push_char(out, 'r');
    } else if c == '\t' {
        push_char(out, '\\');
        push_char(out, 't');
    } else if c == '\x08' {
        push_char(out, '\\');
        push_char(out, 'b');
    } else if c == '\x0c' {
        push_char(out, '\\');
        push_char(out, 'f');
    } else if (c as u32) < 0x20 {
        let v = c as u32;
        push_char(out, '\\');
        push_char(out, 'u');
        push_char(out, '0');
        push_char(out, '0');
        push_char(out, hex_digit(v / 16));
        push_char(out, hex_digit(v % 16));
    } else {
        push_char(out, c);
    }
    assert(out@ =~= o + escape_char(c));
}

fn push_quoted(out: &mut String, s: &str)
    ensures
        final(out)@ == old(out)@ + quoted(s@),
{
    let ghost o = out@;
    push_char(out, '"');
    let v = chars_of(s);
    let mut i: usize = 0;
    assert(v@.take(0) =~= seq![]);
    while i < v.len()
        invariant
            0 <= i <= v@.len(),
            v@ == s@,
            out@ == o + seq!['"'] + escape(v@.take(i as int)),
        decreases v@.len() - i,
    {
        proof {
            lemma_escape_push(v@.take(i as int), v@[i as int]);
            assert(v@.take(i + 1) =~= v@.take(i as int).push(v@[i as int]));
        }
        push_escaped_char(out, v[i]);
        i = i + 1;
    }
    assert(v@.take(v@.len() as int) =~= v@);
    push_char(out, '"');
    assert(out@ =~= o + quoted(s@));
}

proof fn lemma_members_push(names: Seq<Seq<char>>, values: Seq<Seq<char>>, x: Seq<char>, y: Seq<char>)
    requires
        names.len() == values.len(),
    ensures
        members(names.push(x), values.push(y)) == if names.len() == 0 {
            quoted(x) + seq![':'] + quoted(y)
        } else {
            members(names, values) + seq![','] + (quoted(x) + seq![':'] + quoted(y))
        },
    decreases names.len(),
{
    if names.len() == 0 {
    } else {
        assert(names.push(x).drop_first() =~= names.drop_first().push(x));
        assert(values.push(y).drop_first() =~= values.drop_first().push(y));
        lemma_members_push(names.drop_first(), values.drop_first(), x, y);
        assert(names.push(x)[0] == names[0]);
        assert(values.push(y)[0] == values[0]);
        if names.len() == 1 {
            assert(names.drop_first() =~= seq![]);
        }
        let one = quoted(names[0]) + seq![':'] + quoted(values[0]);
        let last = quoted(x) + seq![':'] + quoted(y);
        if names.len() == 1 {
            assert(members(names.push(x), values.push(y)) =~= one + seq![','] + last);
        } else {
            assert(members(names.push(x), values.push(y)) =~= one + seq![','] + (members(
                names.drop_first(),
                values.drop_first(),
            ) + seq![','] + last));
            assert(members(names, values) =~= one + seq![','] + members(names.drop_first(), values.drop_first()));
        }
    }
}

fn push_members(out: &mut String, names: &Vec<String>, values: &Vec<String>)
    requires
        names@.len() == values@.len(),
    ensures
        final(out)@ == old(out)@ + members(strs(names@), strs(values@)),
{
    let ghost o = out@;
    let mut k: usize = 0;
    assert(strs(names@).take(0) =~= seq![]);
    assert(strs(values@).take(0) =~= seq![]);
    while k < names.len()
        invariant
            0 <= k <= names@.len(),
            names@.len() == values@.len(),
            out@ == o + members(strs(names@).take(k as int), strs(values@).take(k as int)),
        decreases names@.len() - k,
    {
        let ghost nk = strs(names@).take(k as int);
        let ghost vk = strs(values@).take(k as int);
        proof {
            lemma_members_push(nk, vk, names@[k as int]@, values@[k as int]@);
            assert(strs(names@).take(k + 1) =~= nk.push(names@[k as int]@));
            assert(strs(values@).take(k + 1) =~= vk.push(values@[k as int]@));
        }
        let ghost before = out@;
        if k > 0 {
            push_char(out, ',');
        }
        push_quoted(out, names[k].as_str());
        push_char(out, ':');
        push_quoted(out, values[k].as_str());
        if k == 0 {
            assert(nk =~= seq![]);
            assert(out@ =~= o + (quoted(names@[k as int]@) + seq![':'] + quoted(values@[k as int]@)));
        } else {
            assert(out@ =~= before + seq![','] + (quoted(names@[k as int]@) + seq![':'] + quoted(
                values@[k as int]@,
            )));
        }
        k = k + 1;
    }
    assert(strs(names@).take(names@.len() as int) =~= strs(names@));
    assert(strs(values@).take(values@.len() as int) =~= strs(values@));
}

fn code_text(c: ErrorCode) -> (r: String)
    ensures
        r@ == code_name(c),
{
    match c {
        ErrorCode::Protocol => "protocol".to_string(),
        ErrorCode::ExpectedRegister => "expected_register".to_string(),
        ErrorCode::SlowConsumer => "slow_consumer".to_string(),
        ErrorCode::NoWorker => "no_worker".to_string(),
        ErrorCode::Unexpected => "unexpected".to_string(),
        ErrorCode::WorkerGone => "worker_gone".to_string(),
    }
}

fn names2(a: &str, b: &str) -> (r: Vec<String>)
    ensures
        strs(r@) == seq![a@, b@],
{
    let r = vec![a.to_string(), b.to_string()];
    assert(strs(r@) =~= seq![a@, b@]);
    r
}

fn names3(a: &str, b: &str, c: &str) -> (r: Vec<String>)
    ensures
        strs(r@) == seq![a@, b@, c@],
{
    let r = vec![a.to_string(), b.to_string(), c.to_string()];
    assert(strs(r@) =~= seq![a@, b@, c@]);
    r
}

fn names1(a: &str) -> (r: Vec<String>)
    ensures
        strs(r@) == seq![a@],
{
    let r = vec![a.to_string()];
    assert(strs(r@) =~= seq![a@]);
    r
}

/// The text frame of a message.
pub fn encode(msg: &SignalingMessage) -> (r: String)
    ensures
        r@ == encoding(msg@),
{
    let (tag, names, values): (&str, Vec<String>, Vec<String>) = match msg {
        SignalingMessage::ServerRegister { server_id } => ("server_register", names1("server_id"), names1(server_id.as_str())),
        SignalingMessage::ServerRegistered { server_id } => ("server_registered", names1("server_id"), names1(server_id.as_str())),
        SignalingMessage::ServerDisconnect { server_id } => ("server_disconnect", names1("server_id"), names1(server_id.as_str())),
        SignalingMessage::ClientConnect { client_id } => ("client_connect", names1("client_id"), names1(client_id.as_str())),
        SignalingMessage::ClientConnected { client_id, server_id } => (
            "client_connected",
            names2("client_id", "server_id"),
            names2(client_id.as_str(), server_id.as_str()),
        ),
        SignalingMessage::ClientDisconnect { client_id } => ("client_disconnect", names1("client_id"), names1(client_id.as_str())),
        SignalingMessage::Offer { from, to, sdp } => (
            "offer",
            names3("from", "to", "sdp"),
            names3(from.as_str(), to.as_str(), sdp.as_str()),
        ),
        SignalingMessage::Answer { from, to, sdp } => (
            "answer",
            names3("from", "to", "sdp"),
            names3(from.as_str(), to.as_str(), sdp.as_str()),
        ),
        SignalingMessage::IceCandidate { from, to, candidate } => (
            "ice_candidate",
            names3("from", "to", "candidate"),
            names3(from.as_str(), to.as_str(), candidate.as_str()),
        ),
        SignalingMessage::Error { code, message } => {
            let c = code_text(*code);
            ("error", names2("code", "message"), names2(c.as_str(), message.as_str()))
        },
    };
    assert(tag@ == tag_of(msg@));
    assert(strs(names@) == field_names(msg@));
    assert(strs(values@) == values_of(msg@));
    let mut out = String::new();
    out.append("{\"version\":1,\"type\":");
    push_quoted(&mut out, tag);
    out.append(",\"payload\":{");
    push_members(&mut out, &names, &values);
    out.append("}}");
    assert(out@ =~= encoding(msg@));
    out
}

fn parse_lit_at(t: &Vec<char>, p: usize, lit: &str) -> (r: Option<usize>)
    ensures
        match r {
            Some(q) => parse_lit(t@, p as int, lit@) == Some(q as int),
            None => parse_lit(t@, p as int, lit@) is None,
        },
{
    let l = chars_of(lit);
    if p > t.len() || l.len() > t.len() - p {
        return None;
    }
    let tl = t.len();
    let mut k: usize = 0;
    while k < l.len()
        invariant
            tl == t@.len(),
            l@ == lit@,
            p + l@.len() <= t@.len(),
            0 <= k <= l@.len(),
            forall|j: int| 0 <= j < k ==> t@[p + j] == l@[j],
        decreases l@.len() - k,
    {
        if t[p + k] != l[k] {
            assert(t@.subrange(p as int, p + l@.len())[k as int] != lit@[k as int]);
            return None;
        }
        k = k + 1;
    }
    assert(t@.subrange(p as int, p + l@.len()) =~= lit@);
    Some(p + l.len())
}

fn parse_str_at(t: &Vec<char>, i0: usize) -> (r: Option<(String, usize)>)
    ensures
        match r {
            Some((s, q)) => parse_str(t@, i0 as int, seq![]) == Some((s@, q as int)),
            None => parse_str(t@, i0 as int, seq![]) is None,
        },
{
    let mut acc = String::new();
    let mut i = i0;
    while i < t.len()
        invariant
            parse_str(t@, i0 as int, seq![]) == parse_str(t@, i as int, acc@),
        decreases t@.len() - i,
    {
        let c = t[i];
        if c == '"' {
            return Some((acc, i + 1));
        }
        if c == '\\' {
            if t.len() - i < 2 {
                return None;
            }
            let d = t[i + 1];
            if d == '"' || d == '\\' || d == '/' {
                push_char(&mut acc, d);
            } else if d == 'n' {
                push_char(&mut acc, '\n');
            } else if d == 'r' {
                push_char(&mut acc, '\r');
            } else if d == 't' {
                push_char(&mut acc, '\t');
            } else if d == 'b' {
                push_char(&mut acc, '\x08');
            } else if d == 'f' {
                push_char(&mut acc, '\x0c');
            } else if d == 'u' && t.len() - i > 5 && t[i + 2] == '0' && t[i + 3] == '0' {
                match (hex_digit_value(t[i + 4]), hex_digit_value(t[i + 5])) {
                    (Some(h1), Some(h2)) => {
                        if h1 >= 2 {
                            return None;
                        }
                        let v: u32 = h1 * 16 + h2;
                        let ch = (v as u8) as char;
                        assert(ch == (v as char));
                        push_char(&mut acc, ch);
                        i = i + 4;
                    },
                    _ => {
                        return None;
                    },
                }
            } else {
                return None;
            }
            i = i + 2;
        } else if (c as u32) < 0x20 {
            return None;
        } else {
            push_char(&mut acc, c);
            i = i + 1;
        }
    }
    None
}

fn parse_quoted_at(t: &Vec<char>, p: usize) -> (r: Option<(String, usize)>)
    ensures
        match r {
            Some((s, q)) => parse_quoted(t@, p as int) == Some((s@, q as int)),
            None => parse_quoted(t@, p as int) is None,
        },
{
    if p < t.len() && t[p] == '"' {
        parse_str_at(t, p + 1)
    } else {
        None
    }
}

fn parse_members_at(t: &Vec<char>, p: usize, names: &Vec<String>, k: usize, first: bool) -> (r: Option<(Vec<String>, usize)>)
    requires
        k <= names@.len(),
    ensures
        match r {
            Some((vals, q)) => parse_members(t@, p as int, strs(names@).skip(k as int), first) == Some((strs(vals@), q as int)),
            None => parse_members(t@, p as int, strs(names@).skip(k as int), first) is None,
        },
    decreases names@.len() - k,
{
    let ghost ns = strs(names@).skip(k as int);
    if k == names.len() {
        assert(ns.len() == 0);
        let v: Vec<String> = Vec::new();
        assert(strs(v@) =~= seq![]);
        return Some((v, p));
    }
    assert(ns[0] == names@[k as int]@);
    assert(ns.drop_first() =~= strs(names@).skip(k + 1));
    proof {
        reveal_strlit(",");
        assert(","@ =~= seq![',']);
    }
    let p1 = if first {
        p
    } else {
        match parse_lit_at(t, p, ",") {
            Some(q) => q,
            None => {
                return None;
            },
        }
    };
    let (name, p2) = match parse_quoted_at(t, p1) {
        Some(x) => x,
        None => {
            return None;
        },
    };
    if !name.eq(&names[k]) {
        return None;
    }
    proof {
        reveal_strlit(":");
        assert(":"@ =~= seq![':']);
    }
    let p3 = match parse_lit_at(t, p2, ":") {
        Some(q) => q,
        None => {
            return None;
        },
    };
    let (value, p4) = match parse_quoted_at(t, p3) {
        Some(x) => x,
        None => {
            return None;
        },
    };
    match parse_members_at(t, p4, names, k + 1, false) {
        None => None,
        Some((rest, p5)) => {
            let mut vals: Vec<String> = Vec::new();
            vals.push(value);
            let mut j: usize = 0;
            let ghost rv = strs(rest@);
            while j < rest.len()
                invariant
                    0 <= j <= rest@.len(),
                    strs(vals@) == seq![value@] + rv.take(j as int),
                    rv == strs(rest@),
                decreases rest@.len() - j,
            {
                let ghost before = vals@;
                vals.push(rest[j].clone());
                assert(rv.take(j + 1) =~= rv.take(j as int).push(rv[j as int]));
                assert(strs(vals@) =~= strs(before).push(rv[j as int]));
                j = j + 1;
            }
            assert(rv.take(rv.len() as int) =~= rv);
            Some((vals, p5))
        },
    }
}

fn names_for_tag(tag: &String) -> (r: Option<Vec<String>>)
    ensures
        match r {
            Some(v) => names_for(tag@) == Some(strs(v@)),
            None => names_for(tag@) is None,
        },
{
    let t = tag.as_str();
    proof {
        lemma_tag_literals();
    }
    if crate::ids::same_id(t, "server_register") || crate::ids::same_id(t, "server_registered")
        || crate::ids::same_id(t, "server_disconnect") {
        Some(names1("server_id"))
    } else if crate::ids::same_id(t, "client_connect") || crate::ids::same_id(t, "client_disconnect") {
        Some(names1("client_id"))
    } else if crate::ids::same_id(t, "client_connected") {
        Some(names2("client_id", "server_id"))
    } else if crate::ids::same_id(t, "offer") || crate::ids::same_id(t, "answer") {
        Some(names3("from", "to", "sdp"))
    } else if crate::ids::same_id(t, "ice_candidate") {
        Some(names3("from", "to", "candidate"))
    } else if crate::ids::same_id(t, "error") {
        Some(names2("code", "message"))
    } else {
        None
    }
}

fn code_named(n: &String) -> (r: Option<ErrorCode>)
    ensures
        r == code_of(n@),
{
    let t = n.as_str();
    if crate::ids::same_id(t, "protocol") {
        Some(ErrorCode::Protocol)
    } else if crate::ids::same_id(t, "expected_register") {
        Some(ErrorCode::ExpectedRegister)
    } else if crate::ids::same_id(t, "slow_consumer") {
        Some(ErrorCode::SlowConsumer)
    } else if crate::ids::same_id(t, "no_worker") {
        Some(ErrorCode::NoWorker)
    } else if crate::ids::same_id(t, "unexpected") {
        Some(ErrorCode::Unexpected)
    } else if crate::ids::same_id(t, "worker_gone") {
        Some(ErrorCode::WorkerGone)
    } else {
        None
    }
}

proof fn lemma_tag_literals()
    ensures
        "server_register"@.len() == 15,
        "server_registered"@.len() == 17,
        "server_disconnect"@.len() == 17,
        "client_connect"@.len() == 14,
        "client_connected"@.len() == 16,
        "client_disconnect"@.len() == 17,
        "offer"@.len() == 5,
        "answer"@.len() == 6,
        "ice_candidate"@.len() == 13,
        "error"@.len() == 5,
        "server_registered"@[7] != "server_disconnect"@[7],
        "server_registered"@[0] != "client_disconnect"@[0],
        "server_disconnect"@[0] != "client_disconnect"@[0],
        "offer"@[0] != "error"@[0],
{
    reveal_strlit("server_register");
    reveal_strlit("server_registered");
    reveal_strlit("server_disconnect");
    reveal_strlit("client_connect");
    reveal_strlit("client_connected");
    reveal_strlit("client_disconnect");
    reveal_strlit("offer");
    reveal_strlit("answer");
    reveal_strlit("ice_candidate");
    reveal_strlit("error");
}

fn build_message(tag: &String, v: &Vec<String>) -> (r: Option<SignalingMessage>)
    requires
        names_for(tag@) matches Some(names) && names.len() == v@.len(),
    ensures
        match r {
            Some(m) => build(tag@, strs(v@)) == Some(m@),
            None => build(tag@, strs(v@)) is None,
        },
{
    let t = tag.as_str();
    proof {
        lemma_tag_literals();
        assert(v@.len() >= 1);
    }
    if crate::ids::same_id(t, "server_register") {
        Some(SignalingMessage::ServerRegister { server_id: v[0].clone() })
    } else if crate::ids::same_id(t, "server_registered") {
        Some(SignalingMessage::ServerRegistered { server_id: v[0].clone() })
    } else if crate::ids::same_id(t, "server_disconnect") {
        Some(SignalingMessage::ServerDisconnect { server_id: v[0].clone() })
    } else if crate::ids::same_id(t, "client_connect") {
        Some(SignalingMessage::ClientConnect { client_id: v[0].clone() })
    } else if crate::ids::same_id(t, "client_connected") {
        Some(SignalingMessage::ClientConnected { client_id: v[0].clone(), server_id: v[1].clone() })
    } else if crate::ids::same_id(t, "client_disconnect") {
        Some(SignalingMessage::ClientDisconnect { client_id: v[0].clone() })
    } else if crate::ids::same_id(t, "offer") {
        Some(SignalingMessage::Offer { from: v[0].clone(), to: v[1].clone(), sdp: v[2].clone() })
    } else if crate::ids::same_id(t, "answer") {
        Some(SignalingMessage::Answer { from: v[0].clone(), to: v[1].clone(), sdp: v[2].clone() })
    } else if crate::ids::same_id(t, "ice_candidate") {
        Some(SignalingMessage::IceCandidate { from: v[0].clone(), to: v[1].clone(), candidate: v[2].clone() })
    } else {
        match code_named(&v[0]) {
            Some(code) => Some(SignalingMessage::Error { code, message: v[1].clone() }),
            None => None,
        }
    }
}

/// The message a text frame holds; none when the frame is not the
/// encoding of a message. Only the layout that `encode` writes is read:
/// `version` first, then `type`, then `payload` with its members in the
/// order of `names_for`, and no whitespace between tokens; the same object
/// with spaces or members in another order is refused. Within strings,
/// escapes that the encoder does not write (`\/`) are read too.
pub fn decode(text: &str) -> (r: Option<SignalingMessage>)
    ensures
        match r {
            Some(m) => decoding(text@) == Some(m@),
            None => decoding(text@) is None,
        },
{
    let t = chars_of(text);
    let p1 = match parse_lit_at(&t, 0, "{\"version\":1,\"type\":") {
        Some(q) => q,
        None => {
            return None;
        },
    };
    let (tag, p2) = match parse_quoted_at(&t, p1) {
        Some(x) => x,
        None => {
            return None;
        },
    };
    let names = match names_for_tag(&tag) {
        Some(n) => n,
        None => {
            return None;
        },
    };
    let p3 = match parse_lit_at(&t, p2, ",\"payload\":{") {
        Some(q) => q,
        None => {
            return None;
        },
    };
    assert(strs(names@).skip(0) =~= strs(names@));
    let (values, p4) = match parse_members_at(&t, p3, &names, 0, true) {
        Some(x) => x,
        None => {
            return None;
        },
    };
    let p5 = match parse_lit_at(&t, p4, "}}") {
        Some(q) => q,
        None => {
            return None;
        },
    };
    if p5 != t.len() {
        return None;
    }
    proof {
        lemma_parse_members_len(t@, p3 as int, strs(names@), true);
    }
    build_message(&tag, &values)
}

proof fn lemma_parse_members_len(t: Seq<char>, p: int, names: Seq<Seq<char>>, first: bool)
    ensures
        parse_members(t, p, names, first) matches Some((vals, q)) ==> vals.len() == names.len(),
    decreases names.len(),
{
    if names.len() > 0 {
        let start = if first { Some(p) } else { parse_lit(t, p, seq![',']) };
        if let Some(p1) = start {
            if let Some((name, p2)) = parse_quoted(t, p1) {
                if let Some(p3) = parse_lit(t, p2, seq![':']) {
                    if let Some((value, p4)) = parse_quoted(t, p3) {
                        lemma_parse_members_len(t, p4, names.drop_first(), false);
                    }
                }
            }
        }
    }
}

/// Decodes a frame and encodes the message again, as a relay does. A frame
/// that is the encoding of a message comes out byte for byte as it went in.
pub fn reencode(text: &str) -> (r: Option<String>)
    ensures
        match r {
            Some(out) => decoding(text@) matches Some(m) && out@ == encoding(m),
            None => decoding(text@) is None,
        },
        forall|m: SignalingView| text@ == encoding(m) ==> (r matches Some(out) && out@ == text@),
{
    proof {
        assert forall|m: SignalingView| text@ == encoding(m) implies decoding(text@) == Some(m) by {
            lemma_decode_encoding(m);
        }
    }
    match decode(text) {
        Some(m) => Some(encode(&m)),
        None => None,
    }
}

} // verus!
