use familycom::config::AppConfig;
use familycom::types::{
    Direction, DisplayName, DisplayNameError, MessageContent, MessageContentError, MessageId,
    PeerId, Timestamp,
};

#[test]
fn first_run_generates_unique_ids() {
    let a = AppConfig::new_first_run("A");
    let b = AppConfig::new_first_run("B");
    assert_ne!(a.peer_id, b.peer_id);
}

#[test]
fn first_run_defaults() {
    let c = AppConfig::new_first_run("Sala");
    assert_eq!(c.display_name, "Sala");
    assert_eq!(c.peer_id.len(), 36);
    assert_eq!(c.tcp_port, 0);
    assert!(c.terminal_command.is_none());
    assert!(c.network_interface.is_none());
}

#[test]
fn peer_id_generate_is_unique() {
    let a = PeerId::generate();
    let b = PeerId::generate();
    assert_ne!(a, b, "two generated PeerIds should be different");
}

#[test]
fn message_id_generate_is_unique() {
    let a = MessageId::generate();
    let b = MessageId::generate();
    assert_ne!(a, b);
    assert_eq!(a.as_str().len(), 36);
}

#[test]
fn peer_id_display() {
    let id = PeerId::new("abc-123");
    assert_eq!(id.to_string(), "abc-123");
}

#[test]
fn display_name_valid() {
    let name = DisplayName::new("PC-Sala").unwrap();
    assert_eq!(name.as_str(), "PC-Sala");
}

#[test]
fn display_name_trimmed() {
    let name = DisplayName::new("  Laptop  ").unwrap();
    assert_eq!(name.as_str(), "Laptop");
}

#[test]
fn display_name_empty_rejected() {
    assert!(DisplayName::new("").is_err());
    assert!(DisplayName::new("   ").is_err());
}

#[test]
fn display_name_too_long_rejected() {
    let long = "a".repeat(51);
    assert!(DisplayName::new(&long).is_err());
}

#[test]
fn display_name_spanish_chars() {
    let name = DisplayName::new("Salón de Mamá").unwrap();
    assert_eq!(name.as_str(), "Salón de Mamá");
}

#[test]
fn display_name_error_variants() {
    assert_eq!(DisplayName::new(" \t\n ").unwrap_err(), DisplayNameError::Empty);
    let long = "b".repeat(51);
    assert_eq!(
        DisplayName::new(&long).unwrap_err(),
        DisplayNameError::TooLong { max: 50, got: 51 }
    );
}

#[test]
fn display_name_limit_is_in_bytes() {
    let exact = "a".repeat(50);
    assert_eq!(DisplayName::new(&exact).unwrap().as_str(), exact);
    let accented = "á".repeat(26);
    assert_eq!(
        DisplayName::new(&accented).unwrap_err(),
        DisplayNameError::TooLong { max: 50, got: 52 }
    );
    let padded = format!("   {}   ", "c".repeat(50));
    assert_eq!(DisplayName::new(&padded).unwrap().as_str(), "c".repeat(50));
}

#[test]
fn display_name_trims_unicode_whitespace() {
    let name = DisplayName::new("\u{3000}\u{a0}Cocina\u{2003}\n").unwrap();
    assert_eq!(name.as_str(), "Cocina");
}

#[test]
fn message_content_valid() {
    let content = MessageContent::new("Hola, cómo estás?").unwrap();
    assert_eq!(content.as_str(), "Hola, cómo estás?");
}

#[test]
fn message_content_empty_rejected() {
    assert!(MessageContent::new("").is_err());
    assert!(MessageContent::new("   ").is_err());
}

#[test]
fn message_content_too_long_rejected() {
    let long = "a".repeat(10_001);
    assert!(MessageContent::new(&long).is_err());
}

#[test]
fn message_content_keeps_whitespace_and_reports_errors() {
    let content = MessageContent::new("  hola  ").unwrap();
    assert_eq!(content.as_str(), "  hola  ");
    assert_eq!(MessageContent::new("\t\n").unwrap_err(), MessageContentError::Empty);
    let exact = "z".repeat(10_000);
    assert!(MessageContent::new(&exact).is_ok());
    let long = "z".repeat(10_001);
    assert_eq!(
        MessageContent::new(&long).unwrap_err(),
        MessageContentError::TooLong { max: 10_000, got: 10_001 }
    );
}

#[test]
fn timestamp_now_is_positive() {
    let ts = Timestamp::now();
    assert!(ts.as_millis() > 0);
}

#[test]
fn timestamp_ordering() {
    let earlier = Timestamp::from_millis(1000);
    let later = Timestamp::from_millis(2000);
    assert!(earlier < later);
}

#[test]
fn direction_db_roundtrip() {
    assert_eq!(
        Direction::from_db_str(Direction::Sent.as_db_str()).unwrap(),
        Direction::Sent
    );
    assert_eq!(
        Direction::from_db_str(Direction::Received.as_db_str()).unwrap(),
        Direction::Received
    );
}

#[test]
fn direction_invalid_db_str() {
    assert!(Direction::from_db_str("invalid").is_err());
}

#[test]
fn direction_texts() {
    assert_eq!(Direction::Sent.as_db_str(), "sent");
    assert_eq!(Direction::Received.as_db_str(), "received");
    assert_eq!(
        Direction::from_db_str("Sent").unwrap_err(),
        "invalid direction: 'Sent'"
    );
}
