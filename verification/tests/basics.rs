use lafont::net::Net;
use lafont::types::{Kind, Node, Port};

fn check_involution(net: &Net) {
    let n = net.next_id();
    for id in 0..n {
        if net.is_live(id) {
            let ports = match net.node(id) {
                Node::Erase { .. } => 1,
                _ => 3,
            };
            for p in 0..ports {
                let here = Port::new(id, p);
                let there = net.follow(here);
                assert_ne!(there, here);
                assert_eq!(net.follow(there), here);
            }
        }
    }
}

#[test]
fn port_new_extract() {
    let p = Port::new(3, 1);
    assert_eq!(p.extract(), (3, 1));
    assert_eq!(Port::new(0, 0).extract(), (0, 0));
}

#[test]
fn create_allocates_fresh_identifiers() {
    let mut net = Net::empty();
    assert_eq!(net.agent_count(), 0);
    let a = net.create_erase();
    let b = net.create_construct();
    let c = net.create_duplicate();
    assert_eq!((a, b, c), (0, 1, 2));
    assert_eq!(net.next_id(), 3);
    assert_eq!(net.agent_count(), 3);
    assert!(net.is_live(a) && net.is_live(b) && net.is_live(c));
    assert_eq!(net.node(a).kind(), Kind::Erase);
    assert_eq!(net.node(b).kind(), Kind::Construct);
    assert_eq!(net.node(c).kind(), Kind::Duplicate);
}

#[test]
fn connect_is_symmetric() {
    let mut net = Net::empty();
    let a = net.create_erase();
    let b = net.create_erase();
    net.connect(Port::new(a, 0), Port::new(b, 0));
    assert_eq!(net.follow(Port::new(a, 0)), Port::new(b, 0));
    assert_eq!(net.follow(Port::new(b, 0)), Port::new(a, 0));
}

#[test]
fn connect_overwrites_both_slots() {
    let mut net = Net::empty();
    let a = net.create_construct();
    let b = net.create_erase();
    let c = net.create_erase();
    net.connect(Port::new(a, 1), Port::new(b, 0));
    net.connect(Port::new(a, 1), Port::new(c, 0));
    assert_eq!(net.follow(Port::new(a, 1)), Port::new(c, 0));
    assert_eq!(net.follow(Port::new(c, 0)), Port::new(a, 1));
}

#[test]
fn delete_never_reuses_identifiers() {
    let mut net = Net::empty();
    let a = net.create_erase();
    let b = net.create_erase();
    net.delete(a);
    assert!(!net.is_live(a));
    assert!(net.is_live(b));
    assert_eq!(net.agent_count(), 1);
    let c = net.create_erase();
    assert_eq!(c, 2);
    assert_eq!(net.next_id(), 3);
}

#[test]
fn seed_has_the_canonical_shape() {
    let net = Net::new();
    assert_eq!(net.agent_count(), 4);
    assert_eq!(net.next_id(), 4);
    assert_eq!(net.node(0).kind(), Kind::Erase);
    assert_eq!(net.node(1).kind(), Kind::Erase);
    assert_eq!(net.node(2).kind(), Kind::Construct);
    assert_eq!(net.node(3).kind(), Kind::Duplicate);
    assert_eq!(net.follow(Port::new(0, 0)), Port::new(2, 1));
    assert_eq!(net.follow(Port::new(2, 2)), Port::new(3, 1));
    assert_eq!(net.follow(Port::new(3, 2)), Port::new(1, 0));
    assert_eq!(net.follow(Port::new(2, 0)), Port::new(3, 0));
    check_involution(&net);
}
