use familycom::ipc::ServerMessage;
use familycom::tui::{decimal_text, peer_count_text, Action, FocusedPanel, TuiApp};
use familycom::types::{Direction, Message, MessageId, PeerId, PeerInfo, Timestamp};

fn peer(id: &str, name: &str) -> PeerInfo {
    PeerInfo {
        id: PeerId::new(id),
        display_name: name.to_string(),
        addresses: vec!["10.0.0.1:1".to_string()],
        last_seen_at: Timestamp::from_millis(1),
        online: false,
    }
}

fn msg(id: &str, peer: &str, ts: i64) -> Message {
    Message {
        id: MessageId::new(id),
        peer_id: PeerId::new(peer),
        direction: Direction::Received,
        content: id.to_string(),
        timestamp: Timestamp::from_millis(ts),
        delivered: false,
    }
}

#[test]
fn new_app_is_empty() {
    let app = TuiApp::new();
    assert_eq!(app.status, "Connecting...");
    assert_eq!(app.focused, FocusedPanel::PeerList);
    assert!(app.selected_peer().is_none());
    assert!(app.current_messages().is_empty());
}

#[test]
fn typing_and_editing() {
    let mut app = TuiApp::new();
    for c in "Hla".chars() {
        app.handle_action(Action::InputChar(c));
    }
    app.handle_action(Action::InputLeft);
    app.handle_action(Action::InputLeft);
    app.handle_action(Action::InputChar('o'));
    app.handle_action(Action::InputEnd);
    app.handle_action(Action::InputChar('ñ'));
    app.handle_action(Action::InputBackspace);
    app.handle_action(Action::InputHome);
    app.handle_action(Action::InputDelete);
    app.handle_action(Action::InputRight);
    assert_eq!(app.input_cursor, 1);
    assert_eq!(app.take_input(), "ola");
    assert!(app.input.is_empty());
    assert_eq!(app.input_cursor, 0);
}

#[test]
fn focus_cycles_and_scroll_saturates() {
    let mut app = TuiApp::new();
    app.handle_action(Action::NextFocus);
    assert_eq!(app.focused, FocusedPanel::Messages);
    app.handle_action(Action::NextFocus);
    app.handle_action(Action::NextFocus);
    assert_eq!(app.focused, FocusedPanel::PeerList);
    app.handle_action(Action::ScrollDown);
    assert_eq!(app.messages_scroll, 0);
    app.handle_action(Action::ScrollUp);
    assert_eq!(app.messages_scroll, 3);
    app.messages_scroll = u16::MAX - 1;
    app.handle_action(Action::ScrollUp);
    assert_eq!(app.messages_scroll, u16::MAX);
    app.handle_action(Action::Quit);
    assert!(app.should_quit);
}

#[test]
fn peer_list_selection() {
    let mut app = TuiApp::new();
    app.handle_action(Action::NextPeer);
    assert!(app.selected_peer_idx.is_none());
    app.handle_action(Action::ServerMessage(ServerMessage::PeerList {
        peers: vec![peer("a", "A"), peer("b", "B")],
    }));
    assert_eq!(app.selected_peer_idx, Some(0));
    assert_eq!(app.status, "2 peers");
    app.handle_action(Action::NextPeer);
    app.handle_action(Action::NextPeer);
    assert_eq!(app.selected_peer_idx, Some(1));
    assert_eq!(app.selected_peer_id().unwrap().as_str(), "b");
    app.handle_action(Action::ServerMessage(ServerMessage::PeerList { peers: vec![peer("a", "A")] }));
    assert_eq!(app.selected_peer_idx, Some(0));
    assert_eq!(app.status, "1 peer");
    app.handle_action(Action::PrevPeer);
    assert_eq!(app.selected_peer_idx, Some(0));
    app.handle_action(Action::ServerMessage(ServerMessage::PeerList { peers: vec![] }));
    assert_eq!(app.selected_peer_idx, None);
}

#[test]
fn conversations_from_daemon() {
    let mut app = TuiApp::new();
    app.handle_action(Action::ServerMessage(ServerMessage::PeerList { peers: vec![peer("a", "A")] }));
    app.handle_action(Action::ServerMessage(ServerMessage::Messages {
        messages: vec![msg("m2", "a", 2), msg("m1", "a", 1)],
    }));
    let ids: Vec<&str> = app.current_messages().iter().map(|m| m.id.as_str()).collect();
    assert_eq!(ids, vec!["m1", "m2"]);
    app.messages_scroll = 9;
    app.handle_action(Action::ServerMessage(ServerMessage::NewMessage { message: msg("m3", "a", 3) }));
    assert_eq!(app.messages_scroll, 0);
    assert_eq!(app.current_messages().len(), 3);
    app.handle_action(Action::ServerMessage(ServerMessage::MessageDelivered { message_id: MessageId::new("m2") }));
    assert!(app.current_messages()[1].delivered);
    assert!(!app.current_messages()[0].delivered);
}

#[test]
fn presence_config_and_errors() {
    let mut app = TuiApp::new();
    app.handle_action(Action::ServerMessage(ServerMessage::PeerOnline { peer: peer("a", "A") }));
    assert_eq!(app.peers.len(), 1);
    assert_eq!(app.status, "1 peer");
    let mut renamed = peer("a", "A2");
    renamed.online = true;
    app.handle_action(Action::ServerMessage(ServerMessage::PeerOnline { peer: renamed }));
    assert_eq!(app.peers.len(), 1);
    assert!(app.peers[0].online);
    assert_eq!(app.peers[0].display_name, "A2");
    app.handle_action(Action::ServerMessage(ServerMessage::PeerOffline { peer_id: PeerId::new("a") }));
    assert!(!app.peers[0].online);
    app.handle_action(Action::ServerMessage(ServerMessage::Config {
        display_name: "Sala".to_string(),
        peer_id: PeerId::new("me"),
    }));
    assert_eq!(app.our_name, "Sala");
    assert_eq!(app.our_peer_id.as_ref().unwrap().as_str(), "me");
    app.handle_action(Action::ServerMessage(ServerMessage::Error {
        code: "peer_not_found".to_string(),
        message: "nope".to_string(),
    }));
    assert_eq!(app.status, "Error [peer_not_found]: nope");
}

#[test]
fn decimal_texts() {
    assert_eq!(decimal_text(0), "0");
    assert_eq!(decimal_text(1907), "1907");
    assert_eq!(peer_count_text(0), "0 peers");
}
