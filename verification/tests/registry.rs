use telemetry_hub::registry::{Registry, StationId};

fn addr(a: u8, b: u8, c: u8, d: u8) -> u32 {
    u32::from_be_bytes([a, b, c, d])
}

fn roster() -> Registry {
    Registry::new(vec![
        addr(192, 168, 2, 10),
        addr(192, 168, 2, 15),
        addr(192, 168, 2, 20),
        addr(192, 168, 2, 25),
    ])
    .unwrap()
}

#[test]
fn classify_finds_each_station_in_roster_order() {
    let registry = roster();
    assert_eq!(registry.len(), 4);
    assert_eq!(registry.classify(addr(192, 168, 2, 10)), Some(StationId { index: 0 }));
    assert_eq!(registry.classify(addr(192, 168, 2, 15)), Some(StationId { index: 1 }));
    assert_eq!(registry.classify(addr(192, 168, 2, 20)), Some(StationId { index: 2 }));
    assert_eq!(registry.classify(addr(192, 168, 2, 25)), Some(StationId { index: 3 }));
}

#[test]
fn classify_does_not_know_other_peers() {
    let registry = roster();
    assert_eq!(registry.classify(addr(192, 168, 2, 11)), None);
    assert_eq!(registry.classify(addr(10, 0, 0, 1)), None);
    assert_eq!(registry.classify(0), None);
}

#[test]
fn roster_with_repeated_peer_is_refused() {
    assert!(Registry::new(vec![1, 2, 3, 2]).is_none());
    assert!(Registry::new(vec![9, 9]).is_none());
    assert!(Registry::new(vec![1, 2, 3, 4]).is_some());
}

#[test]
fn empty_roster_knows_nobody() {
    let registry = Registry::new(Vec::new()).unwrap();
    assert_eq!(registry.len(), 0);
    assert_eq!(registry.classify(addr(192, 168, 2, 10)), None);
}

#[test]
fn peer_of_inverts_classify() {
    let registry = roster();
    for index in 0..4 {
        let peer = registry.peer_of(StationId { index }).unwrap();
        assert_eq!(registry.classify(peer), Some(StationId { index }));
    }
    assert_eq!(registry.peer_of(StationId { index: 4 }), None);
}
