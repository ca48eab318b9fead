use novamind::peers::PeerList;
use novamind::status::Status;

#[test]
fn peers_are_listed_once_in_order() {
    let mut p = PeerList::new();
    assert_eq!(p.len(), 0);
    assert_eq!(p.register_peer_node("http://b"), Status::Created);
    assert_eq!(p.register_peer_node("  http://a\n"), Status::Created);
    assert_eq!(p.register_peer_node("http://b "), Status::Created);
    assert_eq!(p.len(), 2);
    assert_eq!(p.get_peer_nodes(), vec!["http://b".to_string(), "http://a".to_string()]);
}

#[test]
fn addresses_of_peers_have_bounds() {
    let mut p = PeerList::new();
    assert_eq!(p.register_peer_node(" \t"), Status::BadRequest);
    assert_eq!(p.register_peer_node(&"x".repeat(129)), Status::BadRequest);
    assert_eq!(p.register_peer_node(&"\u{e9}".repeat(65)), Status::BadRequest);
    assert_eq!(p.len(), 0);
    assert_eq!(p.register_peer_node(&format!(" {} ", "x".repeat(128))), Status::Created);
    assert_eq!(p.register_peer_node(&"\u{e9}".repeat(64)), Status::Created);
    assert_eq!(p.len(), 2);
}
