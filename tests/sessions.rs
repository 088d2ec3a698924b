use vox_verse::bot::{Bot, BotAction, NegotiationState, PeerState};
use vox_verse::msg_bus::{BusAction, MessageBus};
use vox_verse::server_mngr::ServerMngr;
use vox_verse::signaling_msgs::{ErrorCode, SignalingMessage};
use vox_verse::signaling_session::{
    admit_client, admit_worker, close_client, close_slow_worker, close_worker, read_frame, route_from_client, route_from_worker, ClientRoute,
    WorkerRoute,
};

fn s(x: &str) -> String {
    x.to_string()
}

fn is_error(m: &SignalingMessage, code: ErrorCode) -> bool {
    matches!(m, SignalingMessage::Error { code: c, .. } if *c == code)
}

fn sent(a: &BotAction) -> Option<&SignalingMessage> {
    match a {
        BotAction::Send { msg } => Some(msg),
        _ => None,
    }
}

#[test]
fn single_client_single_worker_happy_path() {
    let mut reg: ServerMngr<u32, u32> = ServerMngr::new();
    let (id, ack) = admit_worker(&mut reg, SignalingMessage::ServerRegister { server_id: s("w1") }, 1).unwrap();
    assert_eq!(id, "w1");
    assert_eq!(ack, SignalingMessage::ServerRegistered { server_id: s("w1") });

    let a = admit_client(&mut reg, SignalingMessage::ClientConnect { client_id: s("c1") }, 2).unwrap();
    assert_eq!(a.reply, SignalingMessage::ClientConnected { client_id: s("c1"), server_id: s("w1") });
    assert_eq!(a.to_worker, SignalingMessage::ClientConnect { client_id: s("c1") });
    assert_eq!(a.server_id, "w1");

    // the worker side
    let mut bus: MessageBus<u8> = MessageBus::new();
    match bus.handle(a.to_worker) {
        BusAction::CreateBot { client_id } => assert_eq!(client_id, "c1"),
        _ => panic!("expected a bot to be created"),
    }
    assert!(bus.register(&s("c1"), 5));
    let offer = SignalingMessage::Offer { from: s("c1"), to: s("w1"), sdp: s("offer-sdp") };
    let routed = route_from_client(&reg, "c1", offer.clone());
    match routed {
        ClientRoute::ToWorker { server_id, msg } => {
            assert_eq!(server_id, "w1");
            assert_eq!(msg, offer);
        }
        _ => panic!("offer should go to the worker"),
    }
    let mut bot = Bot::new(s("bot_c1"), s("c1"));
    match bus.handle(offer.clone()) {
        BusAction::Deliver { client_id, msg } => {
            assert_eq!(client_id, "c1");
            let acts = bot.handle_message(msg);
            assert_eq!(acts.len(), 1);
            assert!(matches!(&acts[0], BotAction::ApplyOffer { sdp } if sdp == "offer-sdp"));
        }
        _ => panic!("offer should reach the bot"),
    }
    let acts = bot.on_local_description(s("answer-sdp"));
    assert_eq!(acts.len(), 1);
    let answer = sent(&acts[0]).unwrap().clone();
    assert_eq!(answer, SignalingMessage::Answer { from: s("bot_c1"), to: s("c1"), sdp: s("answer-sdp") });
    assert_eq!(bot.state(), NegotiationState::Active);

    match route_from_worker(&reg, "w1", answer.clone()) {
        WorkerRoute::ToClient { client_id, msg } => {
            assert_eq!(client_id, "c1");
            assert_eq!(msg, answer);
        }
        _ => panic!("answer should reach the client"),
    }
}

#[test]
fn ice_before_sdp_commit_is_held_back() {
    let mut bot = Bot::new(s("b"), s("c"));
    assert!(bot.on_local_candidate(s("cand-1")).is_empty());
    assert!(bot.on_local_candidate(s("cand-2")).is_empty());
    let acts = bot.handle_message(SignalingMessage::Offer { from: s("c"), to: s("b"), sdp: s("o") });
    assert_eq!(acts.len(), 1);
    let acts = bot.on_local_description(s("a"));
    let msgs: Vec<SignalingMessage> = acts.iter().map(|a| sent(a).unwrap().clone()).collect();
    assert_eq!(
        msgs,
        vec![
            SignalingMessage::Answer { from: s("b"), to: s("c"), sdp: s("a") },
            SignalingMessage::IceCandidate { from: s("b"), to: s("c"), candidate: s("cand-1") },
            SignalingMessage::IceCandidate { from: s("b"), to: s("c"), candidate: s("cand-2") },
        ]
    );
    let acts = bot.on_local_candidate(s("cand-3"));
    assert_eq!(acts.len(), 1);
    assert_eq!(
        sent(&acts[0]).unwrap(),
        &SignalingMessage::IceCandidate { from: s("b"), to: s("c"), candidate: s("cand-3") }
    );
}

#[test]
fn remote_candidates_wait_for_the_offer() {
    let mut bot = Bot::new(s("b"), s("c"));
    let acts = bot.handle_message(SignalingMessage::IceCandidate { from: s("c"), to: s("b"), candidate: s("r1") });
    assert!(acts.is_empty());
    let acts = bot.on_local_description(s("a"));
    assert_eq!(acts.len(), 2);
    assert!(matches!(&acts[1], BotAction::AddRemoteCandidate { candidate } if candidate == "r1"));
    let acts = bot.handle_message(SignalingMessage::IceCandidate { from: s("c"), to: s("b"), candidate: s("r2") });
    assert!(matches!(&acts[..], [BotAction::AddRemoteCandidate { candidate }] if candidate == "r2"));
}

#[test]
fn bot_answer_before_offer_is_an_error_and_ignored_after() {
    let mut bot = Bot::new(s("b"), s("c"));
    let acts = bot.handle_message(SignalingMessage::Answer { from: s("c"), to: s("b"), sdp: s("x") });
    assert_eq!(acts.len(), 1);
    assert!(is_error(sent(&acts[0]).unwrap(), ErrorCode::Unexpected));
    bot.on_local_description(s("a"));
    let acts = bot.handle_message(SignalingMessage::Answer { from: s("c"), to: s("b"), sdp: s("x") });
    assert!(acts.is_empty());
}

#[test]
fn bot_ends_on_failure_and_drops_everything_after() {
    let mut bot = Bot::new(s("b"), s("c"));
    assert!(bot.on_peer_state(PeerState::Connected).is_empty());
    let acts = bot.on_peer_state(PeerState::Failed);
    assert_eq!(acts.len(), 2);
    assert_eq!(sent(&acts[0]).unwrap(), &SignalingMessage::ClientDisconnect { client_id: s("c") });
    assert!(matches!(acts[1], BotAction::Terminate));
    assert_eq!(bot.state(), NegotiationState::Failed);
    assert!(bot.handle_message(SignalingMessage::Offer { from: s("c"), to: s("b"), sdp: s("o") }).is_empty());
    assert!(bot.on_local_candidate(s("x")).is_empty());
    assert!(bot.on_mailbox_closed().is_empty());
}

#[test]
fn bot_closes_on_disconnect_and_on_mailbox_close() {
    let mut bot = Bot::new(s("b"), s("c"));
    let acts = bot.handle_message(SignalingMessage::ClientDisconnect { client_id: s("c") });
    assert!(matches!(&acts[..], [BotAction::Terminate]));
    assert_eq!(bot.state(), NegotiationState::Closed);
    let mut other = Bot::new(s("b2"), s("c2"));
    assert!(matches!(&other.on_mailbox_closed()[..], [BotAction::Terminate]));
}

#[test]
fn generated_bot_ids_have_twenty_characters() {
    let a = Bot::spawn_for(s("c1"));
    let b = Bot::spawn_for(s("c1"));
    assert_eq!(a.bot_id.chars().count(), 20);
    assert!(a.bot_id.chars().all(|c| c.is_ascii_digit() || ('a'..='v').contains(&c)));
    assert_ne!(a.bot_id, b.bot_id);
    assert_eq!(a.client_id, "c1");
}

#[test]
fn worker_admission_errors() {
    let mut reg: ServerMngr<u32, u32> = ServerMngr::new();
    let e = admit_worker(&mut reg, SignalingMessage::ClientConnect { client_id: s("c") }, 1).unwrap_err();
    assert!(is_error(&e, ErrorCode::ExpectedRegister));
    assert_eq!(reg.worker_count(), 0);
    admit_worker(&mut reg, SignalingMessage::ServerRegister { server_id: s("w1") }, 1).unwrap();
    let e = admit_worker(&mut reg, SignalingMessage::ServerRegister { server_id: s("w1") }, 2).unwrap_err();
    assert!(is_error(&e, ErrorCode::Protocol));
    assert_eq!(reg.forward_to_server("w1"), Ok(&1));
}

#[test]
fn client_admission_errors() {
    let mut reg: ServerMngr<u32, u32> = ServerMngr::new();
    let e = admit_client(&mut reg, SignalingMessage::ClientConnect { client_id: s("c1") }, 1).err().unwrap();
    assert!(is_error(&e, ErrorCode::NoWorker));
    assert_eq!(reg.client_count(), 0);
    let e = admit_client(&mut reg, SignalingMessage::Offer { from: s("c1"), to: s("w"), sdp: s("") }, 1)
        .err()
        .unwrap();
    assert!(is_error(&e, ErrorCode::Protocol));
    reg.register_server(s("w1"), 0).unwrap();
    admit_client(&mut reg, SignalingMessage::ClientConnect { client_id: s("c1") }, 1).ok().unwrap();
    let e = admit_client(&mut reg, SignalingMessage::ClientConnect { client_id: s("c1") }, 2).err().unwrap();
    assert!(is_error(&e, ErrorCode::Protocol));
    assert_eq!(reg.connected_users("w1"), Some(1));
}

#[test]
fn client_frames_other_than_negotiation_get_unexpected() {
    let mut reg: ServerMngr<u32, u32> = ServerMngr::new();
    reg.register_server(s("w1"), 0).unwrap();
    admit_client(&mut reg, SignalingMessage::ClientConnect { client_id: s("c1") }, 0).ok().unwrap();
    match route_from_client(&reg, "c1", SignalingMessage::ServerRegister { server_id: s("x") }) {
        ClientRoute::Reply { msg } => assert!(is_error(&msg, ErrorCode::Unexpected)),
        _ => panic!("expected an error reply"),
    }
    let cand = SignalingMessage::IceCandidate { from: s("c1"), to: s("w1"), candidate: s("k") };
    assert!(matches!(route_from_client(&reg, "c9", cand), ClientRoute::Drop));
}

#[test]
fn worker_frames_for_foreign_clients_are_dropped() {
    let mut reg: ServerMngr<u32, u32> = ServerMngr::new();
    reg.register_server(s("w1"), 0).unwrap();
    reg.register_server(s("w2"), 0).unwrap();
    admit_client(&mut reg, SignalingMessage::ClientConnect { client_id: s("c1") }, 0).ok().unwrap();
    let ans = SignalingMessage::Answer { from: s("b"), to: s("c1"), sdp: s("") };
    assert!(matches!(route_from_worker(&reg, "w2", ans.clone()), WorkerRoute::Drop));
    assert!(matches!(route_from_worker(&reg, "w1", ans), WorkerRoute::ToClient { .. }));
    let bye = SignalingMessage::ServerDisconnect { server_id: s("w1") };
    assert!(matches!(route_from_worker(&reg, "w1", bye), WorkerRoute::Close));
    let err = SignalingMessage::Error { code: ErrorCode::Protocol, message: s("") };
    assert!(matches!(route_from_worker(&reg, "w1", err), WorkerRoute::Drop));
}

#[test]
fn closing_a_worker_notifies_its_clients() {
    let mut reg: ServerMngr<u32, u32> = ServerMngr::new();
    reg.register_server(s("w1"), 0).unwrap();
    admit_client(&mut reg, SignalingMessage::ClientConnect { client_id: s("c1") }, 0).ok().unwrap();
    admit_client(&mut reg, SignalingMessage::ClientConnect { client_id: s("c2") }, 0).ok().unwrap();
    let notices = close_worker(&mut reg, "w1");
    assert_eq!(
        notices,
        vec![
            SignalingMessage::ClientDisconnect { client_id: s("c1") },
            SignalingMessage::ClientDisconnect { client_id: s("c2") },
        ]
    );
    assert_eq!(reg.get_client_server("c1"), None);
    assert_eq!(reg.get_client_server("c2"), None);
    assert_eq!(reg.worker_count(), 0);
}

#[test]
fn bus_registration_is_idempotent_and_routes_by_sender() {
    let mut bus: MessageBus<u8> = MessageBus::new();
    assert!(matches!(bus.handle(SignalingMessage::ClientConnect { client_id: s("c1") }), BusAction::CreateBot { .. }));
    assert!(bus.register(&s("c1"), 1));
    assert!(!bus.register(&s("c1"), 2));
    assert_eq!(bus.send_from("c1"), Some(&1));
    assert!(matches!(bus.handle(SignalingMessage::ClientConnect { client_id: s("c1") }), BusAction::Drop));
    let ice = SignalingMessage::IceCandidate { from: s("c2"), to: s("b"), candidate: s("x") };
    assert!(matches!(bus.handle(ice), BusAction::Drop));
    match bus.handle(SignalingMessage::ClientDisconnect { client_id: s("c1") }) {
        BusAction::StopBot { client_id } => assert_eq!(client_id, "c1"),
        _ => panic!("expected the bot to stop"),
    }
    assert_eq!(bus.send_from("c1"), None);
    assert!(matches!(
        bus.handle(SignalingMessage::Error { code: ErrorCode::Protocol, message: s("x") }),
        BusAction::Drop
    ));
    bus.unregister("nobody");
}

#[test]
fn slow_worker_disconnect() {
    let (tx, _rx) = std::sync::mpsc::sync_channel::<String>(100);
    let mut reg: ServerMngr<std::sync::mpsc::SyncSender<String>, u32> = ServerMngr::new();
    admit_worker(&mut reg, SignalingMessage::ServerRegister { server_id: s("w1") }, tx).unwrap();
    admit_client(&mut reg, SignalingMessage::ClientConnect { client_id: s("c1") }, 0).ok().unwrap();
    let mut queued = 0;
    let mut overflowed = false;
    for k in 0..200 {
        let m = SignalingMessage::IceCandidate { from: s("c1"), to: s("w1"), candidate: format!("{k}") };
        let ClientRoute::ToWorker { server_id, msg } = route_from_client(&reg, "c1", m) else {
            panic!("candidate should go to the worker")
        };
        let mailbox = reg.forward_to_server(&server_id).unwrap();
        if mailbox.try_send(vox_verse::wire::encode(&msg)).is_err() {
            overflowed = true;
            break;
        }
        queued += 1;
    }
    assert!(overflowed);
    assert_eq!(queued, 100);
    let (err, notices) = close_slow_worker(&mut reg, "w1");
    assert!(is_error(&err, ErrorCode::SlowConsumer));
    assert_eq!(notices, vec![SignalingMessage::ClientDisconnect { client_id: s("c1") }]);
    assert_eq!(reg.get_client_server("c1"), None);
    assert_eq!(reg.worker_count(), 0);
}

#[test]
fn a_leaving_client_is_announced_to_its_worker() {
    let mut reg: ServerMngr<u32, u32> = ServerMngr::new();
    reg.register_server(s("w1"), 0).unwrap();
    admit_client(&mut reg, SignalingMessage::ClientConnect { client_id: s("c1") }, 0).ok().unwrap();
    let bye = SignalingMessage::ClientDisconnect { client_id: s("c1") };
    assert!(matches!(route_from_client(&reg, "c1", bye), ClientRoute::Close));
    let (server_id, notice) = close_client(&mut reg, "c1").unwrap();
    assert_eq!(server_id, "w1");
    assert_eq!(notice, SignalingMessage::ClientDisconnect { client_id: s("c1") });
    assert_eq!(reg.client_count(), 0);
    assert_eq!(reg.connected_users("w1"), Some(0));
    assert!(close_client(&mut reg, "c1").is_none());
}

#[test]
fn a_bot_ending_is_relayed_to_its_client() {
    let mut reg: ServerMngr<u32, u32> = ServerMngr::new();
    reg.register_server(s("w1"), 0).unwrap();
    reg.register_server(s("w2"), 0).unwrap();
    admit_client(&mut reg, SignalingMessage::ClientConnect { client_id: s("c1") }, 0).ok().unwrap();
    let bye = SignalingMessage::ClientDisconnect { client_id: s("c1") };
    assert!(matches!(route_from_worker(&reg, "w2", bye.clone()), WorkerRoute::Drop));
    match route_from_worker(&reg, "w1", bye.clone()) {
        WorkerRoute::ToClient { client_id, msg } => {
            assert_eq!(client_id, "c1");
            assert_eq!(msg, bye);
        }
        _ => panic!("the client should be told"),
    }
}

#[test]
fn frames_are_read_or_refused_with_a_protocol_error() {
    let text = vox_verse::wire::encode(&SignalingMessage::ClientConnect { client_id: s("c1") });
    assert_eq!(read_frame(&text), Ok(SignalingMessage::ClientConnect { client_id: s("c1") }));
    let e = read_frame("not json").unwrap_err();
    assert!(is_error(&e, ErrorCode::Protocol));
}
