use lafont::net::Net;
use lafont::types::{Kind, Node, Port};

fn involution_holds(net: &Net) {
    let n = net.next_id();
    for id in 0..n {
        if net.is_live(id) {
            let ports = match net.node(id) {
                Node::Erase { .. } => 1,
                _ => 3,
            };
            for p in 0..ports {
                let here = Port::new(id, p);
                let there = net.follow(here);
                assert_ne!(there, here);
                assert_eq!(net.follow(there), here);
            }
        }
    }
}

fn count_of_kind(net: &Net, k: Kind) -> usize {
    let mut c = 0;
    for id in 0..net.next_id() {
        if net.is_live(id) && net.node(id).kind() == k {
            c += 1;
        }
    }
    c
}

#[test]
fn erase_pair_annihilates() {
    let mut net = Net::empty();
    let a = net.create_erase();
    let b = net.create_erase();
    net.connect(Port::new(a, 0), Port::new(b, 0));
    assert!(net.step());
    assert_eq!(net.agent_count(), 0);
    assert!(!net.is_live(a) && !net.is_live(b));
    assert!(!net.step());
}

#[test]
fn normal_form_is_stable() {
    let mut net = Net::empty();
    let a = net.create_erase();
    let b = net.create_erase();
    net.connect(Port::new(a, 0), Port::new(b, 0));
    assert!(net.step());
    for _ in 0..5 {
        assert!(!net.step());
        assert_eq!(net.agent_count(), 0);
        assert_eq!(net.next_id(), 2);
    }
}

#[test]
fn duplicate_pair_annihilates() {
    let mut net = Net::empty();
    let a = net.create_duplicate();
    let b = net.create_duplicate();
    net.connect(Port::new(a, 0), Port::new(b, 0));
    net.connect(Port::new(a, 1), Port::new(b, 1));
    net.connect(Port::new(a, 2), Port::new(b, 2));
    assert!(net.step());
    assert_eq!(net.agent_count(), 0);
    assert!(!net.step());
}

#[test]
fn construct_pair_annihilates() {
    let mut net = Net::empty();
    let a = net.create_construct();
    let b = net.create_construct();
    net.connect(Port::new(a, 0), Port::new(b, 0));
    net.connect(Port::new(a, 1), Port::new(b, 1));
    net.connect(Port::new(a, 2), Port::new(b, 2));
    assert!(net.step());
    assert_eq!(net.agent_count(), 0);
    assert!(!net.step());
}

#[test]
fn construct_erase_leaves_count_unchanged() {
    // A Construct paired with an Erase at its principal port, its two
    // auxiliary ports wired to two further Erase agents.
    let mut net = Net::empty();
    let c = net.create_construct();
    let e1 = net.create_erase();
    let e2 = net.create_erase();
    let e3 = net.create_erase();
    net.connect(Port::new(c, 0), Port::new(e3, 0));
    net.connect(Port::new(c, 1), Port::new(e1, 0));
    net.connect(Port::new(c, 2), Port::new(e2, 0));
    assert_eq!(net.agent_count(), 4);
    assert!(net.step());
    assert_eq!(net.agent_count(), 4);
    assert!(!net.is_live(c));
    // Exactly one fresh Erase agent was created.
    assert_eq!(net.next_id(), 5);
    assert!(net.is_live(4));
    assert_eq!(net.node(4).kind(), Kind::Erase);
    assert_eq!(count_of_kind(&net, Kind::Erase), 4);
    involution_holds(&net);
}

#[test]
fn duplicate_erase_leaves_count_unchanged() {
    let mut net = Net::empty();
    let d = net.create_duplicate();
    let e1 = net.create_erase();
    let e2 = net.create_erase();
    let e3 = net.create_erase();
    net.connect(Port::new(d, 0), Port::new(e3, 0));
    net.connect(Port::new(d, 1), Port::new(e1, 0));
    net.connect(Port::new(d, 2), Port::new(e2, 0));
    assert!(net.step());
    assert_eq!(net.agent_count(), 4);
    assert!(!net.is_live(d));
    assert_eq!(net.node(4).kind(), Kind::Erase);
    involution_holds(&net);
}

#[test]
fn commutation_grows_by_two() {
    // The seed net holds a Construct-Duplicate active pair whose auxiliary
    // ports wire back into the same pair.
    let mut net = Net::new();
    assert_eq!(net.agent_count(), 4);
    assert!(net.step());
    assert_eq!(net.agent_count(), 6);
    // The pair survives and one fresh Construct and Duplicate appear.
    assert!(net.is_live(2) && net.is_live(3));
    assert_eq!(net.node(4).kind(), Kind::Construct);
    assert_eq!(net.node(5).kind(), Kind::Duplicate);
    involution_holds(&net);
    // The exact rewiring: four external edges reconnected through the two
    // pairs, four fresh internal edges.
    assert_eq!(net.follow(Port::new(0, 0)), Port::new(5, 0));
    assert_eq!(net.follow(Port::new(1, 0)), Port::new(4, 0));
    assert_eq!(net.follow(Port::new(2, 0)), Port::new(3, 0));
    assert_eq!(net.follow(Port::new(2, 1)), Port::new(5, 1));
    assert_eq!(net.follow(Port::new(2, 2)), Port::new(3, 1));
    assert_eq!(net.follow(Port::new(3, 2)), Port::new(4, 2));
    assert_eq!(net.follow(Port::new(4, 1)), Port::new(5, 2));
    assert_eq!(net.follow(Port::new(4, 2)), Port::new(3, 2));
}

#[test]
fn erasure_has_priority_over_commutation() {
    // The seed's Construct-Duplicate pair coexists with a detached
    // Erase-Erase pair; the Erase-Erase rule fires first.
    let mut net = Net::new();
    let x = net.create_erase();
    let y = net.create_erase();
    net.connect(Port::new(x, 0), Port::new(y, 0));
    assert_eq!(net.agent_count(), 6);
    assert!(net.step());
    assert_eq!(net.agent_count(), 4);
    assert!(!net.is_live(x) && !net.is_live(y));
    assert!(net.is_live(0) && net.is_live(1) && net.is_live(2) && net.is_live(3));
    involution_holds(&net);
}

#[test]
fn tie_break_takes_lowest_identifier() {
    let mut net = Net::empty();
    let a = net.create_erase();
    let b = net.create_erase();
    let c = net.create_erase();
    let d = net.create_erase();
    net.connect(Port::new(a, 0), Port::new(b, 0));
    net.connect(Port::new(c, 0), Port::new(d, 0));
    assert!(net.step());
    assert!(!net.is_live(a) && !net.is_live(b));
    assert!(net.is_live(c) && net.is_live(d));
}

#[test]
fn seed_reduction_cycles() {
    // Under the fixed priority policy the seed net never reaches normal
    // form: commutation recreates the configuration every four steps, with
    // the live agent count cycling 6, 6, 6, 4.
    let mut net = Net::new();
    for _ in 0..4 {
        assert!(net.step());
        assert_eq!(net.agent_count(), 6);
        assert!(net.step());
        assert_eq!(net.agent_count(), 6);
        assert!(net.step());
        assert_eq!(net.agent_count(), 6);
        assert!(net.step());
        assert_eq!(net.agent_count(), 4);
        involution_holds(&net);
    }
}

#[test]
fn involution_is_preserved_by_stepping() {
    let mut net = Net::new();
    for _ in 0..10 {
        assert!(net.step());
        involution_holds(&net);
    }
}
