use vox_verse::signaling_msgs::{ErrorCode, SignalingMessage};
use vox_verse::wire::{chars_of, decode, encode};

fn s(x: &str) -> String {
    x.to_string()
}

fn all_kinds() -> Vec<SignalingMessage> {
    vec![
        SignalingMessage::ServerRegister { server_id: s("w1") },
        SignalingMessage::ServerRegistered { server_id: s("w1") },
        SignalingMessage::ServerDisconnect { server_id: s("w1") },
        SignalingMessage::ClientConnect { client_id: s("c1") },
        SignalingMessage::ClientConnected { client_id: s("c1"), server_id: s("w1") },
        SignalingMessage::ClientDisconnect { client_id: s("c1") },
        SignalingMessage::Offer { from: s("c1"), to: s("w1"), sdp: s("v=0\r\no=- 1 2 IN IP4 0.0.0.0\r\n") },
        SignalingMessage::Answer { from: s("bot"), to: s("c1"), sdp: s("quote \" back \\ slash") },
        SignalingMessage::IceCandidate { from: s("bot"), to: s("c1"), candidate: s("tab\there\u{1}\u{1f}é✓") },
        SignalingMessage::Error { code: ErrorCode::NoWorker, message: s("no worker available") },
        SignalingMessage::Error { code: ErrorCode::Protocol, message: s("") },
        SignalingMessage::Error { code: ErrorCode::ExpectedRegister, message: s("x") },
        SignalingMessage::Error { code: ErrorCode::SlowConsumer, message: s("x") },
        SignalingMessage::Error { code: ErrorCode::Unexpected, message: s("x") },
        SignalingMessage::Error { code: ErrorCode::WorkerGone, message: s("x") },
    ]
}

#[test]
fn test_signaling_message_json() {
    let message = SignalingMessage::ClientConnect { client_id: "client_123".to_string() };
    let json = encode(&message);
    println!("ClientConnect JSON: {}", json);
    assert_eq!(json, r#"{"version":1,"type":"client_connect","payload":{"client_id":"client_123"}}"#);

    let message = SignalingMessage::Offer {
        from: "client_123".to_string(),
        to: "client_456".to_string(),
        sdp: "sdp_data".to_string(),
    };
    let json = encode(&message);
    println!("Offer JSON: {}", json);
    assert_eq!(
        json,
        r#"{"version":1,"type":"offer","payload":{"from":"client_123","to":"client_456","sdp":"sdp_data"}}"#
    );
}

#[test]
fn reencoding_after_a_round_trip_is_identical() {
    for m in all_kinds() {
        let text = encode(&m);
        let back = decode(&text).expect("an encoded message decodes");
        assert_eq!(back, m);
        assert_eq!(encode(&back), text);
    }
}

#[test]
fn strings_are_escaped_as_json() {
    let m = SignalingMessage::IceCandidate { from: s("a\"b"), to: s("c\\d"), candidate: s("\n\r\t\u{8}\u{c}\u{1}x") };
    assert_eq!(
        encode(&m),
        r#"{"version":1,"type":"ice_candidate","payload":{"from":"a\"b","to":"c\\d","candidate":"\n\r\t\b\f\u0001x"}}"#
    );
    let e = SignalingMessage::Error { code: ErrorCode::WorkerGone, message: s("bye") };
    assert_eq!(encode(&e), r#"{"version":1,"type":"error","payload":{"code":"worker_gone","message":"bye"}}"#);
}

#[test]
fn decoding_reads_a_slash_escape() {
    let text = r#"{"version":1,"type":"answer","payload":{"from":"b","to":"c","sdp":"a\/b"}}"#;
    assert_eq!(decode(text), Some(SignalingMessage::Answer { from: s("b"), to: s("c"), sdp: s("a/b") }));
}

#[test]
fn malformed_frames_are_refused() {
    let bad = [
        "",
        "{}",
        r#"{"version":2,"type":"client_connect","payload":{"client_id":"c"}}"#,
        r#"{"version":1,"type":"bogus","payload":{"client_id":"c"}}"#,
        r#"{"version":1,"type":"client_connect","payload":{"server_id":"c"}}"#,
        r#"{"version":1,"type":"client_connect","payload":{"client_id":"c"}} "#,
        r#"{"version":1,"type":"client_connect","payload":{"client_id":"c}}"#,
        r#"{"version":1,"type":"offer","payload":{"from":"a","to":"b"}}"#,
        r#"{"version":1,"type":"error","payload":{"code":"nope","message":"m"}}"#,
        "{\"version\":1,\"type\":\"client_connect\",\"payload\":{\"client_id\":\"a\nb\"}}",
        r#"{"version":1,"type":"client_connect","payload":{"client_id":"\q"}}"#,
    ];
    for t in bad {
        assert_eq!(decode(t), None, "{}", t);
    }
}

#[test]
fn chars_of_keeps_every_character() {
    assert_eq!(chars_of("aé✓"), vec!['a', 'é', '✓']);
    assert!(chars_of("").is_empty());
}

#[test]
fn reencoding_a_frame_gives_it_back() {
    for m in all_kinds() {
        let text = encode(&m);
        assert_eq!(vox_verse::wire::reencode(&text), Some(text.clone()));
    }
    assert_eq!(vox_verse::wire::reencode("{}"), None);
    let slash = r#"{"version":1,"type":"answer","payload":{"from":"b","to":"c","sdp":"a\/b"}}"#;
    assert_eq!(
        vox_verse::wire::reencode(slash),
        Some(r#"{"version":1,"type":"answer","payload":{"from":"b","to":"c","sdp":"a/b"}}"#.to_string())
    );
}

#[test]
fn frames_with_spaces_are_refused() {
    let spaced = r#"{ "version": 1, "type": "client_connect", "payload": { "client_id": "c" } }"#;
    assert_eq!(decode(spaced), None);
}
