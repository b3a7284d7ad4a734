use familycom::desktop::{preview, NotificationManager};
use familycom::discovery::{
    interface_rules, InterfaceRule, is_ipv6_link_local, DiscoveryEvent, Endpoint, IpAddress, PeerTracker, ResolvedService,
};
use familycom::ipc::{
    check_line_length, BusEvent, ClientRequest, ControlAction, ControlSession, IpcError,
    ServerMessage,
};
use familycom::types::{PeerId, Timestamp};

#[test]
fn malformed_line_gets_invalid_request_and_session_continues() {
    let mut s = ControlSession::new();
    match s.on_line(Err("expected value at line 1".to_string())) {
        ControlAction::Reply(ServerMessage::Error { code, message }) => {
            assert_eq!(code, "invalid_request");
            assert_eq!(message, "failed to parse request: expected value at line 1");
        }
        other => panic!("unexpected {other:?}"),
    }
    assert!(matches!(s.on_line(Ok(ClientRequest::ListPeers)), ControlAction::Forward(ClientRequest::ListPeers)));
}

#[test]
fn subscribe_is_idempotent() {
    let mut s = ControlSession::new();
    assert!(matches!(s.on_line(Ok(ClientRequest::Subscribe)), ControlAction::Subscribe));
    assert!(s.subscribed);
    assert!(matches!(s.on_line(Ok(ClientRequest::Subscribe)), ControlAction::Reply(ServerMessage::Done)));
    assert!(s.subscribed);
}

#[test]
fn bus_events_and_lag() {
    let s = ControlSession::new();
    let ev = ServerMessage::PeerOffline { peer_id: PeerId::new("x") };
    assert!(matches!(s.on_bus_event(BusEvent::Event(ev)), ControlAction::Reply(ServerMessage::PeerOffline { .. })));
    assert!(matches!(s.on_bus_event(BusEvent::Lagged(44)), ControlAction::Skip));
    assert!(matches!(s.on_bus_event(BusEvent::Closed), ControlAction::Close));
}

#[test]
fn line_length_limit() {
    assert!(check_line_length(1_048_576).is_ok());
    assert!(matches!(
        check_line_length(1_048_577),
        Err(IpcError::LineTooLong { size: 1_048_577, max: 1_048_576 })
    ));
}

#[test]
fn test_is_ipv6_link_local() {
    assert!(is_ipv6_link_local(&IpAddress::V6([0xfe80, 0, 0, 0, 0, 0, 0, 1])));
    assert!(is_ipv6_link_local(&IpAddress::V6([0xfe80, 0, 0, 0, 0xabcd, 0xef01, 0x2345, 0x6789])));
    assert!(is_ipv6_link_local(&IpAddress::V6([0xfebf, 0, 0, 0, 0, 0, 0, 1])));
    assert!(!is_ipv6_link_local(&IpAddress::V6([0x2001, 0xdb8, 0, 0, 0, 0, 0, 1])));
    assert!(!is_ipv6_link_local(&IpAddress::V6([0, 0, 0, 0, 0, 0, 0, 1])));
    assert!(!is_ipv6_link_local(&IpAddress::V4([192, 168, 1, 1])));
    assert!(!is_ipv6_link_local(&IpAddress::V4([169, 254, 1, 1])));
}

fn service(label: &str, peer: Option<&str>, endpoints: Vec<Endpoint>) -> ResolvedService {
    ResolvedService {
        fullname: label.to_string(),
        peer_id: peer.map(|p| p.to_string()),
        display_name: Some("Cocina".to_string()),
        endpoints,
    }
}

fn v4(text: &str) -> Endpoint {
    Endpoint { ip: IpAddress::V4([192, 168, 1, 7]), text: text.to_string() }
}

fn link_local(text: &str) -> Endpoint {
    Endpoint { ip: IpAddress::V6([0xfe80, 0, 0, 0, 0, 0, 0, 1]), text: text.to_string() }
}

#[test]
fn tracker_found_then_lost_by_label() {
    let mut t = PeerTracker::new(PeerId::new("aaa"));
    let ev = t.on_resolved(
        service("Cocina._familycom._tcp.local.", Some("bbb"), vec![link_local("fe80::1:9"), v4("192.168.1.7:9")]),
        Timestamp::from_millis(5),
    );
    match ev {
        Some(DiscoveryEvent::PeerFound(p)) => {
            assert_eq!(p.id.as_str(), "bbb");
            assert_eq!(p.display_name, "Cocina");
            assert_eq!(p.addresses, vec!["192.168.1.7:9"]);
            assert_eq!(p.last_seen_at, Timestamp::from_millis(5));
            assert!(p.online);
        }
        other => panic!("unexpected {other:?}"),
    }
    match t.on_removed("Cocina._familycom._tcp.local.") {
        Some(DiscoveryEvent::PeerLost(id)) => assert_eq!(id.as_str(), "bbb"),
        other => panic!("unexpected {other:?}"),
    }
    assert!(t.on_removed("Cocina._familycom._tcp.local.").is_none());
}

#[test]
fn tracker_ignores_unknown_label_self_and_unusable() {
    let mut t = PeerTracker::new(PeerId::new("aaa"));
    assert!(t.on_removed("Nobody._familycom._tcp.local.").is_none());
    assert!(t.on_resolved(service("Me", Some("aaa"), vec![v4("1.2.3.4:5")]), Timestamp::from_millis(1)).is_none());
    assert!(t.on_resolved(service("NoId", None, vec![v4("1.2.3.4:5")]), Timestamp::from_millis(1)).is_none());
    assert!(t.on_resolved(service("LL", Some("ccc"), vec![link_local("fe80::2:5")]), Timestamp::from_millis(1)).is_none());
    assert!(t.on_removed("LL").is_none());
    assert_eq!(t.peer_id().as_str(), "aaa");
}

#[test]
fn tracker_uses_unknown_for_missing_name() {
    let mut t = PeerTracker::new(PeerId::new("aaa"));
    let mut svc = service("X", Some("ddd"), vec![v4("10.0.0.9:1")]);
    svc.display_name = None;
    match t.on_resolved(svc, Timestamp::from_millis(1)) {
        Some(DiscoveryEvent::PeerFound(p)) => assert_eq!(p.display_name, "Unknown"),
        other => panic!("unexpected {other:?}"),
    }
}

#[test]
fn notifications_rate_limited_and_switchable() {
    let mut n = NotificationManager::new();
    let first = n.plan(Timestamp::from_millis(10_000), "Sala", "Hola").unwrap();
    assert_eq!(first.summary, "FamilyCom - Sala");
    assert_eq!(first.body, "Hola");
    n.shown(Timestamp::from_millis(10_000));
    assert!(n.plan(Timestamp::from_millis(10_999), "Sala", "otra").is_none());
    assert!(n.plan(Timestamp::from_millis(11_000), "Sala", "otra").is_some());
    n.set_enabled(false);
    assert!(n.plan(Timestamp::from_millis(50_000), "Sala", "otra").is_none());
}

#[test]
fn long_preview_is_cut_at_char_boundary() {
    let exact = "a".repeat(100);
    assert_eq!(preview(&exact), exact);
    let long = format!("{}ñ{}", "a".repeat(96), "b".repeat(10));
    assert_eq!(preview(&long), format!("{}...", "a".repeat(96)));
    let long2 = "c".repeat(150);
    assert_eq!(preview(&long2), format!("{}...", "c".repeat(97)));
}

#[test]
fn interface_restriction_order() {
    assert!(interface_rules(&None).is_empty());
    let rules = interface_rules(&Some("enp5s0".to_string()));
    assert_eq!(rules.len(), 3);
    assert!(matches!(rules[0], InterfaceRule::DisableAll));
    assert!(matches!(&rules[1], InterfaceRule::EnableNamed(n) if n == "enp5s0"));
    assert!(matches!(rules[2], InterfaceRule::DisableIpv6));
}
