//! Identifiers on the signaling fabric: worker, client and bot ids are opaque
//! strings, compared for equality and ordered lexicographically.

use vstd::prelude::*;
use vstd::utf8::{decode_utf8, encode_utf8};

verus! {

/// Strict lexicographic order on byte strings: at the first position where
/// the two differ the left byte is smaller, or the left string is a proper
/// prefix of the right one.
pub open spec fn lex_lt(a: Seq<u8>, b: Seq<u8>) -> bool {
    exists|k: int|
        0 <= k <= a.len() && k <= b.len() && #[trigger] same_prefix(a, b, k) && ((k == a.len()
            && k < b.len()) || (k < a.len() && k < b.len() && a[k] < b[k]))
}

/// The first `k` bytes of `a` and `b` agree.
pub open spec fn same_prefix(a: Seq<u8>, b: Seq<u8>, k: int) -> bool {
    forall|j: int| 0 <= j < k ==> a[j] == b[j]
}

/// Order of ids: lexicographic on their UTF-8 encoding, which is the order
/// of their code points.
pub open spec fn id_precedes(a: Seq<char>, b: Seq<char>) -> bool {
    lex_lt(encode_utf8(a), encode_utf8(b))
}

/// The character sequences of a list of strings.
pub open spec fn strs(v: Seq<String>) -> Seq<Seq<char>> {
    v.map_values(|s: String| s@)
}

/// Two ids are the same id.
pub fn same_id(a: &str, b: &str) -> (r: bool)
    ensures
        r == (a@ == b@),
{
    let x = a.as_bytes();
    let y = b.as_bytes();
    proof {
        vstd::utf8::encode_utf8_decode_utf8(a@);
        vstd::utf8::encode_utf8_decode_utf8(b@);
    }
    if x.len() != y.len() {
        return false;
    }
    let mut i: usize = 0;
    while i < x.len()
        invariant
            x@ == encode_utf8(a@),
            y@ == encode_utf8(b@),
            decode_utf8(encode_utf8(a@)) == a@,
            decode_utf8(encode_utf8(b@)) == b@,
            x@.len() == y@.len(),
            0 <= i <= x@.len(),
            forall|j: int| 0 <= j < i ==> x@[j] == y@[j],
        decreases x@.len() - i,
    {
        if x[i] != y[i] {
            assert(x@ != y@);
            return false;
        }
        i = i + 1;
    }
    assert(x@ =~= y@);
    true
}

/// Whether id `a` comes strictly before id `b`.
pub fn id_before(a: &str, b: &str) -> (r: bool)
    ensures
        r == id_precedes(a@, b@),
{
    let x = a.as_bytes();
    let y = b.as_bytes();
    let mut i: usize = 0;
    while i < x.len() && i < y.len() && x[i] == y[i]
        invariant
            0 <= i <= x@.len(),
            i <= y@.len(),
            same_prefix(x@, y@, i as int),
        decreases x@.len() - i,
    {
        i = i + 1;
    }
    let r = (i == x.len() && i < y.len()) || (i < x.len() && i < y.len() && x[i] < y[i]);
    proof {
        if r {
            assert(same_prefix(x@, y@, i as int));
        } else if lex_lt(x@, y@) {
            let k = choose|k: int|
                0 <= k <= x@.len() && k <= y@.len() && #[trigger] same_prefix(x@, y@, k) && ((k
                    == x@.len() && k < y@.len()) || (k < x@.len() && k < y@.len() && x@[k]
                    < y@[k]));
            if k < i {
                assert(x@[k] == y@[k]);
            } else if k > i {
                assert(x@[i as int] == y@[i as int]);
            }
        }
    }
    r
}

} // verus!
