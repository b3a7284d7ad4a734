use familycom::store::{Database, DatabaseError};
use familycom::types::{Direction, Message, MessageId, PeerId, PeerInfo, Timestamp};

fn test_db() -> Database {
    Database::open_in_memory().expect("failed to create test database")
}

fn insert_test_peer(db: &mut Database, id: &str, name: &str) {
    let peer = PeerInfo {
        id: PeerId::new(id),
        display_name: name.to_string(),
        addresses: vec!["192.168.1.10:9876".to_string()],
        last_seen_at: Timestamp::now(),
        online: true,
    };
    db.upsert_peer(&peer).unwrap();
}

fn message(id: &str, peer: &str, direction: Direction, content: &str, ts: i64) -> Message {
    Message {
        id: MessageId::new(id),
        peer_id: PeerId::new(peer),
        direction,
        content: content.to_string(),
        timestamp: Timestamp::from_millis(ts),
        delivered: false,
    }
}

#[test]
fn config_set_and_get() {
    let mut db = test_db();
    db.set_config("peer_id", "abc-123").unwrap();
    assert_eq!(db.get_config("peer_id").unwrap(), Some("abc-123".to_string()));
}

#[test]
fn config_get_missing_key() {
    let db = test_db();
    assert_eq!(db.get_config("nonexistent").unwrap(), None);
}

#[test]
fn config_update_existing() {
    let mut db = test_db();
    db.set_config("name", "old").unwrap();
    db.set_config("name", "new").unwrap();
    assert_eq!(db.get_config("name").unwrap(), Some("new".to_string()));
}

#[test]
fn config_keys_are_independent() {
    let mut db = test_db();
    db.set_config("a", "1").unwrap();
    db.set_config("b", "2").unwrap();
    db.set_config("a", "3").unwrap();
    assert_eq!(db.get_config("a").unwrap(), Some("3".to_string()));
    assert_eq!(db.get_config("b").unwrap(), Some("2".to_string()));
}

#[test]
fn peer_upsert_and_get() {
    let mut db = test_db();
    insert_test_peer(&mut db, "peer-1", "PC-Sala");

    let peers = db.get_peers().unwrap();
    assert_eq!(peers.len(), 1);
    assert_eq!(peers[0].id.as_str(), "peer-1");
    assert_eq!(peers[0].display_name, "PC-Sala");
    assert_eq!(peers[0].addresses, vec!["192.168.1.10:9876"]);
    assert!(!peers[0].online);
}

#[test]
fn peer_upsert_updates_existing() {
    let mut db = test_db();
    insert_test_peer(&mut db, "peer-1", "Old Name");
    insert_test_peer(&mut db, "peer-1", "New Name");

    let peers = db.get_peers().unwrap();
    assert_eq!(peers.len(), 1);
    assert_eq!(peers[0].display_name, "New Name");
}

#[test]
fn peers_listed_by_display_name() {
    let mut db = test_db();
    insert_test_peer(&mut db, "p3", "Sala");
    insert_test_peer(&mut db, "p1", "Cocina");
    insert_test_peer(&mut db, "p2", "Habitación");
    insert_test_peer(&mut db, "p1", "Zotano");
    let names: Vec<String> = db.get_peers().unwrap().into_iter().map(|p| p.display_name).collect();
    assert_eq!(names, vec!["Habitación", "Sala", "Zotano"]);
}

#[test]
fn upsert_then_list_yields_peer_offline() {
    let mut db = test_db();
    let peer = PeerInfo {
        id: PeerId::new("x"),
        display_name: "Oficina".to_string(),
        addresses: vec!["10.0.0.2:1".to_string(), "10.0.0.3:1".to_string()],
        last_seen_at: Timestamp::from_millis(77),
        online: true,
    };
    db.upsert_peer(&peer).unwrap();
    let peers = db.get_peers().unwrap();
    assert_eq!(peers.len(), 1);
    assert_eq!(peers[0].id, peer.id);
    assert_eq!(peers[0].addresses, peer.addresses);
    assert_eq!(peers[0].last_seen_at, Timestamp::from_millis(77));
    assert!(!peers[0].online);
}

#[test]
fn message_save_and_get() {
    let mut db = test_db();
    insert_test_peer(&mut db, "peer-1", "PC-Sala");

    let msg = message("msg-1", "peer-1", Direction::Sent, "Hola, qué tal?", 1000);
    db.save_message(&msg).unwrap();

    let messages = db.get_messages(&PeerId::new("peer-1"), 10, None).unwrap();
    assert_eq!(messages.len(), 1);
    assert_eq!(messages[0].content, "Hola, qué tal?");
    assert_eq!(messages[0].direction, Direction::Sent);
    assert!(!messages[0].delivered);
}

#[test]
fn message_ordering_newest_first() {
    let mut db = test_db();
    insert_test_peer(&mut db, "peer-1", "PC");

    for i in 1..=5 {
        let msg = Message {
            id: MessageId::new(&format!("msg-{i}")),
            peer_id: PeerId::new("peer-1"),
            direction: Direction::Sent,
            content: format!("Message {i}"),
            timestamp: Timestamp::from_millis(i * 1000),
            delivered: false,
        };
        db.save_message(&msg).unwrap();
    }

    let messages = db.get_messages(&PeerId::new("peer-1"), 10, None).unwrap();
    assert_eq!(messages.len(), 5);
    assert_eq!(messages[0].content, "Message 5");
    assert_eq!(messages[4].content, "Message 1");
}

#[test]
fn message_pagination_with_before() {
    let mut db = test_db();
    insert_test_peer(&mut db, "peer-1", "PC");

    for i in 1..=10 {
        let msg = Message {
            id: MessageId::new(&format!("msg-{i}")),
            peer_id: PeerId::new("peer-1"),
            direction: Direction::Sent,
            content: format!("Message {i}"),
            timestamp: Timestamp::from_millis(i * 1000),
            delivered: false,
        };
        db.save_message(&msg).unwrap();
    }

    let messages = db
        .get_messages(&PeerId::new("peer-1"), 3, Some(Timestamp::from_millis(6000)))
        .unwrap();
    assert_eq!(messages.len(), 3);
    assert_eq!(messages[0].content, "Message 5");
    assert_eq!(messages[1].content, "Message 4");
    assert_eq!(messages[2].content, "Message 3");
}

#[test]
fn messages_saved_out_of_order_come_back_newest_first() {
    let mut db = test_db();
    insert_test_peer(&mut db, "a", "A");
    insert_test_peer(&mut db, "b", "B");
    db.save_message(&message("m3", "a", Direction::Sent, "tres", 3000)).unwrap();
    db.save_message(&message("m1", "a", Direction::Sent, "uno", 1000)).unwrap();
    db.save_message(&message("mb", "b", Direction::Sent, "otro", 2500)).unwrap();
    db.save_message(&message("m2", "a", Direction::Received, "dos", 2000)).unwrap();
    let got: Vec<String> = db
        .get_messages(&PeerId::new("a"), 10, None)
        .unwrap()
        .into_iter()
        .map(|m| m.content)
        .collect();
    assert_eq!(got, vec!["tres", "dos", "uno"]);
    assert!(db.get_messages(&PeerId::new("a"), 0, None).unwrap().is_empty());
    assert!(db.get_messages(&PeerId::new("nobody"), 5, None).unwrap().is_empty());
}

#[test]
fn saved_message_comes_first_with_equal_timestamps() {
    let mut db = test_db();
    insert_test_peer(&mut db, "a", "A");
    db.save_message(&message("first", "a", Direction::Sent, "1", 500)).unwrap();
    db.save_message(&message("second", "a", Direction::Sent, "2", 500)).unwrap();
    let got = db.get_messages(&PeerId::new("a"), 1, None).unwrap();
    assert_eq!(got.len(), 1);
    assert_eq!(got[0].id.as_str(), "second");
}

#[test]
fn save_message_twice_is_duplicate() {
    let mut db = test_db();
    insert_test_peer(&mut db, "peer-1", "PC");
    let msg = message("dup", "peer-1", Direction::Received, "hola", 10);
    db.save_message(&msg).unwrap();
    assert!(matches!(db.save_message(&msg), Err(DatabaseError::DuplicateMessage)));
    assert_eq!(db.get_messages(&PeerId::new("peer-1"), 10, None).unwrap().len(), 1);
}

#[test]
fn save_message_for_unknown_peer_fails() {
    let mut db = test_db();
    let msg = message("m", "ghost", Direction::Sent, "hola", 10);
    assert!(matches!(db.save_message(&msg), Err(DatabaseError::UnknownPeer)));
}

#[test]
fn message_mark_delivered() {
    let mut db = test_db();
    insert_test_peer(&mut db, "peer-1", "PC");

    let msg = Message {
        id: MessageId::new("msg-1"),
        peer_id: PeerId::new("peer-1"),
        direction: Direction::Sent,
        content: "Hello".to_string(),
        timestamp: Timestamp::now(),
        delivered: false,
    };
    db.save_message(&msg).unwrap();

    assert!(db.mark_delivered(&MessageId::new("msg-1")).unwrap());

    let messages = db.get_messages(&PeerId::new("peer-1"), 1, None).unwrap();
    assert!(messages[0].delivered);
}

#[test]
fn mark_delivered_is_idempotent() {
    let mut db = test_db();
    insert_test_peer(&mut db, "peer-1", "PC");
    db.save_message(&message("m", "peer-1", Direction::Sent, "x", 1)).unwrap();
    assert!(db.mark_delivered(&MessageId::new("m")).unwrap());
    assert!(!db.mark_delivered(&MessageId::new("m")).unwrap());
    assert!(db.get_messages(&PeerId::new("peer-1"), 1, None).unwrap()[0].delivered);
}

#[test]
fn message_mark_delivered_nonexistent() {
    let mut db = test_db();
    assert!(!db.mark_delivered(&MessageId::new("nonexistent")).unwrap());
}

#[test]
fn unread_count() {
    let mut db = test_db();
    insert_test_peer(&mut db, "peer-1", "PC");

    for i in 1..=3 {
        let msg = Message {
            id: MessageId::new(&format!("msg-{i}")),
            peer_id: PeerId::new("peer-1"),
            direction: Direction::Received,
            content: format!("Incoming {i}"),
            timestamp: Timestamp::from_millis(i * 1000),
            delivered: false,
        };
        db.save_message(&msg).unwrap();
    }

    let sent = Message {
        id: MessageId::new("msg-sent"),
        peer_id: PeerId::new("peer-1"),
        direction: Direction::Sent,
        content: "Outgoing".to_string(),
        timestamp: Timestamp::now(),
        delivered: false,
    };
    db.save_message(&sent).unwrap();

    assert_eq!(db.unread_count(&PeerId::new("peer-1")).unwrap(), 3);

    db.mark_delivered(&MessageId::new("msg-1")).unwrap();
    assert_eq!(db.unread_count(&PeerId::new("peer-1")).unwrap(), 2);
}

#[test]
fn spanish_characters_in_messages() {
    let mut db = test_db();
    insert_test_peer(&mut db, "peer-1", "Habitación");

    let msg = Message {
        id: MessageId::new("msg-1"),
        peer_id: PeerId::new("peer-1"),
        direction: Direction::Received,
        content: "¡Hola! ¿Cómo está la niña? Está jugando en el salón.".to_string(),
        timestamp: Timestamp::now(),
        delivered: false,
    };
    db.save_message(&msg).unwrap();

    let messages = db.get_messages(&PeerId::new("peer-1"), 1, None).unwrap();
    assert_eq!(
        messages[0].content,
        "¡Hola! ¿Cómo está la niña? Está jugando en el salón."
    );
}
