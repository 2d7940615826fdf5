use srp::{ClientTable, PeerAddr};

fn v4(ip4: u32, port: u16) -> PeerAddr {
    PeerAddr::V4 { ip4, port }
}

#[test]
fn new_table_is_empty_and_starts_at_one() {
    let t = ClientTable::new();
    assert_eq!(t.next_id(), 1);
    assert_eq!(t.lookup_id(&v4(1, 1)), None);
    assert_eq!(t.addr_for(1), None);
}

#[test]
fn ids_are_given_in_order_of_first_sight() {
    let mut t = ClientTable::new();
    assert_eq!(t.id_for(v4(10, 1000)), 1);
    assert_eq!(t.id_for(v4(10, 1001)), 2);
    assert_eq!(t.id_for(v4(11, 1000)), 3);
    assert_eq!(t.next_id(), 4);
}

#[test]
fn known_peer_keeps_its_id() {
    let mut t = ClientTable::new();
    let a = v4(10, 1000);
    let b = v4(10, 2000);
    assert_eq!(t.id_for(a), 1);
    assert_eq!(t.id_for(b), 2);
    assert_eq!(t.id_for(a), 1);
    assert_eq!(t.next_id(), 3);
    assert_eq!(t.lookup_id(&a), Some(1));
    assert_eq!(t.lookup_id(&b), Some(2));
}

#[test]
fn id_leads_back_to_its_peer() {
    let mut t = ClientTable::new();
    let a = v4(0x7f000001, 5353);
    let b = PeerAddr::V6 { ip6: 1, port: 5353, flowinfo: 0, scope_id: 0 };
    let ia = t.id_for(a);
    let ib = t.id_for(b);
    assert_eq!(t.addr_for(ia), Some(a));
    assert_eq!(t.addr_for(ib), Some(b));
    assert_eq!(t.addr_for(ib + 1), None);
    assert_eq!(t.addr_for(0), None);
}

#[test]
fn assign_id_takes_next_id() {
    let mut t = ClientTable::new();
    let id = t.assign_id(v4(1, 2));
    assert_eq!(id, 1);
    assert_eq!(t.next_id(), 2);
    assert_eq!(t.lookup_id(&v4(1, 2)), Some(1));
}

#[test]
fn v4_and_v6_peers_are_distinct() {
    let mut t = ClientTable::new();
    let a = v4(1, 80);
    let b = PeerAddr::V6 { ip6: 1, port: 80, flowinfo: 0, scope_id: 0 };
    assert_ne!(t.id_for(a), t.id_for(b));
}
