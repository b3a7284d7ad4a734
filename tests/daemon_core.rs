use familycom::client::ClientError;
use familycom::config::AppConfig;
use familycom::daemon::{DaemonApp, RequestOutcome};
use familycom::discovery::DiscoveryEvent;
use familycom::ipc::{ClientRequest, ServerMessage};
use familycom::protocol::PeerMessage;
use familycom::store::Database;
use familycom::types::{Direction, MessageId, PeerId, PeerInfo, Timestamp};

fn config(id: &str, name: &str) -> AppConfig {
    AppConfig {
        peer_id: id.to_string(),
        display_name: name.to_string(),
        tcp_port: 0,
        terminal_command: None,
        network_interface: None,
    }
}

fn new_core() -> DaemonApp {
    DaemonApp::new(Database::open_in_memory().unwrap(), config("aaa", "Sala"))
}

fn peer(id: &str, name: &str, addr: &str) -> PeerInfo {
    PeerInfo {
        id: PeerId::new(id),
        display_name: name.to_string(),
        addresses: vec![addr.to_string()],
        last_seen_at: Timestamp::from_millis(1),
        online: true,
    }
}

fn chat(id: &str, from: &str, name: &str, text: &str) -> PeerMessage {
    PeerMessage::Chat {
        id: MessageId::new(id),
        sender_id: PeerId::new(from),
        sender_name: name.to_string(),
        content: text.to_string(),
        timestamp: Timestamp::from_millis(1000),
    }
}

#[test]
fn found_then_lost_announces_online_then_offline_once() {
    let mut c = new_core();
    let on = c.handle_discovery_event(DiscoveryEvent::PeerFound(peer("bbb", "Cocina", "10.0.0.2:9")));
    assert!(matches!(on, Some(ServerMessage::PeerOnline { ref peer }) if peer.id.as_str() == "bbb"));
    let off = c.handle_discovery_event(DiscoveryEvent::PeerLost(PeerId::new("bbb")));
    assert!(matches!(off, Some(ServerMessage::PeerOffline { ref peer_id }) if peer_id.as_str() == "bbb"));
    assert!(c.handle_discovery_event(DiscoveryEvent::PeerLost(PeerId::new("bbb"))).is_none());
}

#[test]
fn list_peers_merges_online_set() {
    let mut c = new_core();
    c.handle_discovery_event(DiscoveryEvent::PeerFound(peer("bbb", "Cocina", "10.0.0.2:9")));
    c.handle_discovery_event(DiscoveryEvent::PeerFound(peer("ccc", "Baño", "10.0.0.3:9")));
    c.handle_discovery_event(DiscoveryEvent::PeerLost(PeerId::new("ccc")));
    match c.handle_list_peers() {
        ServerMessage::PeerList { peers } => {
            assert_eq!(peers.len(), 2);
            assert_eq!(peers[0].display_name, "Baño");
            assert!(!peers[0].online);
            assert_eq!(peers[1].display_name, "Cocina");
            assert!(peers[1].online);
        }
        other => panic!("unexpected {other:?}"),
    }
}

#[test]
fn incoming_chat_from_unknown_sender_is_stored_and_announced() {
    let mut c = new_core();
    let ev = c.handle_incoming_message(chat("M1", "bbb", "Cocina", "Hola"), "10.0.0.2:5555", Timestamp::from_millis(9));
    match ev {
        Some(ServerMessage::NewMessage { message }) => {
            assert_eq!(message.id.as_str(), "M1");
            assert_eq!(message.peer_id.as_str(), "bbb");
            assert_eq!(message.direction, Direction::Received);
            assert!(message.delivered);
        }
        other => panic!("unexpected {other:?}"),
    }
    let peers = c.database().get_peers().unwrap();
    assert_eq!(peers.len(), 1);
    assert_eq!(peers[0].display_name, "Cocina");
    assert_eq!(peers[0].addresses, vec!["10.0.0.2:5555"]);
}

#[test]
fn duplicate_chat_is_announced_once() {
    let mut c = new_core();
    assert!(c.handle_incoming_message(chat("M1", "bbb", "Cocina", "Hola"), "10.0.0.2:1", Timestamp::from_millis(1)).is_some());
    assert!(c.handle_incoming_message(chat("M1", "bbb", "Cocina", "Hola"), "10.0.0.2:1", Timestamp::from_millis(2)).is_none());
    let msgs = c.database().get_messages(&PeerId::new("bbb"), 10, None).unwrap();
    assert_eq!(msgs.len(), 1);
}

#[test]
fn incoming_ack_marks_delivered_and_is_announced() {
    let mut c = new_core();
    let ev = c.handle_incoming_message(PeerMessage::Ack { message_id: MessageId::new("zz") }, "h:1", Timestamp::from_millis(1));
    assert!(matches!(ev, Some(ServerMessage::MessageDelivered { ref message_id }) if message_id.as_str() == "zz"));
    assert!(c.handle_incoming_message(PeerMessage::Ping, "h:1", Timestamp::from_millis(1)).is_none());
    assert!(c.handle_incoming_message(PeerMessage::Pong, "h:1", Timestamp::from_millis(1)).is_none());
}

#[test]
fn send_happy_path() {
    let mut c = new_core();
    c.handle_discovery_event(DiscoveryEvent::PeerFound(peer("bbb", "Cocina", "10.0.0.2:9")));
    let out = c
        .prepare_send(&PeerId::new("bbb"), "Hola", MessageId::new("M1"), Timestamp::from_millis(42))
        .unwrap();
    assert_eq!(out.addresses, vec!["10.0.0.2:9"]);
    match &out.chat {
        PeerMessage::Chat { id, sender_id, sender_name, content, timestamp } => {
            assert_eq!(id.as_str(), "M1");
            assert_eq!(sender_id.as_str(), "aaa");
            assert_eq!(sender_name, "Sala");
            assert_eq!(content, "Hola");
            assert_eq!(*timestamp, Timestamp::from_millis(42));
        }
        other => panic!("unexpected {other:?}"),
    }
    let stored = c.database().get_messages(&PeerId::new("bbb"), 1, None).unwrap();
    assert_eq!(stored[0].direction, Direction::Sent);
    assert!(!stored[0].delivered);
    let (reply, event) = c.finish_send(&out.message_id, &Ok(()));
    assert!(matches!(reply, ServerMessage::MessageSent { ref message_id } if message_id.as_str() == "M1"));
    assert!(matches!(event, Some(ServerMessage::MessageDelivered { ref message_id }) if message_id.as_str() == "M1"));
    assert!(c.database().get_messages(&PeerId::new("bbb"), 1, None).unwrap()[0].delivered);
}

#[test]
fn offline_send_still_replies_message_sent() {
    let mut c = new_core();
    c.handle_discovery_event(DiscoveryEvent::PeerFound(peer("bbb", "Cocina", "10.0.0.2:9")));
    c.handle_discovery_event(DiscoveryEvent::PeerLost(PeerId::new("bbb")));
    let out = c
        .prepare_send(&PeerId::new("bbb"), "Hola", MessageId::new("M2"), Timestamp::from_millis(5))
        .unwrap();
    assert_eq!(out.addresses, vec!["10.0.0.2:9"]);
    let failure = Err(ClientError::ConnectTimeout { addr: "10.0.0.2:9".to_string(), timeout_secs: 5 });
    let (reply, event) = c.finish_send(&out.message_id, &failure);
    assert!(matches!(reply, ServerMessage::MessageSent { .. }));
    assert!(event.is_none());
    assert!(!c.database().get_messages(&PeerId::new("bbb"), 1, None).unwrap()[0].delivered);
}

#[test]
fn send_errors() {
    let mut c = new_core();
    let code = |r: Result<_, ServerMessage>| match r {
        Err(ServerMessage::Error { code, .. }) => code,
        _ => panic!("expected an error"),
    };
    assert_eq!(code(c.prepare_send(&PeerId::new("bbb"), "  ", MessageId::new("a"), Timestamp::from_millis(1))), "invalid_content");
    assert_eq!(code(c.prepare_send(&PeerId::new("bbb"), "Hola", MessageId::new("a"), Timestamp::from_millis(1))), "peer_not_found");
    c.handle_discovery_event(DiscoveryEvent::PeerFound(peer("bbb", "Cocina", "10.0.0.2:9")));
    assert!(c.prepare_send(&PeerId::new("bbb"), "Hola", MessageId::new("a"), Timestamp::from_millis(1)).is_ok());
    assert_eq!(code(c.prepare_send(&PeerId::new("bbb"), "Otra", MessageId::new("a"), Timestamp::from_millis(2))), "db_error");
    let out = c.begin_send(&PeerId::new("bbb"), "Nueva").unwrap();
    assert_eq!(out.message_id.as_str().len(), 36);
    assert_eq!(out.addresses, vec!["10.0.0.2:9"]);
    assert_eq!(out.record.content, "Nueva");
    assert_eq!(out.record.peer_id.as_str(), "bbb");
    assert!(!out.record.delivered);
    assert!(matches!(&out.chat, PeerMessage::Chat { id, content, .. } if *id == out.message_id && content == "Nueva"));
}

#[test]
fn requests_dispatch() {
    let mut c = new_core();
    match c.handle_request(ClientRequest::GetConfig) {
        RequestOutcome::Reply(ServerMessage::Config { display_name, peer_id }) => {
            assert_eq!(display_name, "Sala");
            assert_eq!(peer_id.as_str(), "aaa");
        }
        other => panic!("unexpected {other:?}"),
    }
    assert!(matches!(c.handle_request(ClientRequest::Subscribe), RequestOutcome::Reply(ServerMessage::Done)));
    assert!(matches!(
        c.handle_request(ClientRequest::SetDisplayName { name: "  Salón  ".to_string() }),
        RequestOutcome::SaveConfig
    ));
    assert_eq!(c.config().display_name, "Salón");
    assert!(matches!(
        c.handle_request(ClientRequest::SetDisplayName { name: "   ".to_string() }),
        RequestOutcome::Reply(ServerMessage::Error { ref code, .. }) if code == "invalid_name"
    ));
    assert!(matches!(c.config_saved(Ok(())), ServerMessage::Done));
    assert!(matches!(c.config_saved(Err("disk full".to_string())), ServerMessage::Error { ref code, .. } if code == "config_error"));
    c.handle_discovery_event(DiscoveryEvent::PeerFound(peer("bbb", "Cocina", "10.0.0.2:9")));
    assert!(matches!(
        c.handle_request(ClientRequest::SendMessage { peer_id: PeerId::new("bbb"), content: "Hola".to_string() }),
        RequestOutcome::Deliver(_)
    ));
    match c.handle_request(ClientRequest::GetMessages { peer_id: PeerId::new("bbb"), limit: 50, before: None }) {
        RequestOutcome::Reply(ServerMessage::Messages { messages }) => assert_eq!(messages.len(), 1),
        other => panic!("unexpected {other:?}"),
    }
}
