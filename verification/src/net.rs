//! The executable net: an agent arena with wiring primitives, the six rewrite
//! rules, and the one-rewrite-per-call `step` scheduler.

use vstd::prelude::*;

use crate::model::{
    active_pair, active_sym, bucket_inv, conn, conn_frame, del, del_frame, has_active, in_range,
    live, live_count, node_at, pair_prio, prt, push_frame, rule_cc, rule_cc_props, rule_cd,
    rule_cd_props, rule_dd, rule_dd_props, rule_ee, rule_ee_props, rule_of, rule_xe,
    rule_xe_props, seed, seed_wf, slot, step_to, tgt, top_prio, upd, upd_frame, wf, wf_inst,
};
use crate::types::{kind_of, Kind, Node, Port};

verus! {

/// An agent arena. Slot `a` holds the agent with identifier `a` until that
/// agent is deleted; identifiers are never reused within a run, and the next
/// fresh identifier is the length of the arena.
pub struct Net {
    nodes: Vec<Option<Node>>,
}

impl View for Net {
    type V = Seq<Option<Node>>;

    closed spec fn view(&self) -> Seq<Option<Node>> {
        self.nodes@
    }
}

impl Net {
    /// A net with no agents.
    pub fn empty() -> (n: Net)
        ensures
            n@ == Seq::<Option<Node>>::empty(),
    {
        Net { nodes: Vec::new() }
    }

    /// The canonical seed net.
    pub fn new() -> (n: Net)
        ensures
            n@ == seed(),
            wf(n@),
            live_count(n@) == 4,
    {
        let mut net = Net::empty();
        let a = net.create_erase();
        let b = net.create_erase();
        let c = net.create_construct();
        let d = net.create_duplicate();
        net.connect(Port::new(a, 0), Port::new(c, 1));
        net.connect(Port::new(c, 2), Port::new(d, 1));
        net.connect(Port::new(d, 2), Port::new(b, 0));
        net.connect(Port::new(c, 0), Port::new(d, 0));
        proof {
            assert(net@ =~= seed());
            seed_wf();
        }
        net
    }

    /// Allocate the next identifier for agent `n`, all ports unwired.
    fn create(&mut self, n: Node) -> (a: usize)
        ensures
            a == old(self)@.len(),
            final(self)@ == old(self)@.push(Some(n)),
            old(self)@.len() + 1 <= usize::MAX,
    {
        let a = self.nodes.len();
        self.nodes.push(Some(n));
        let grown = self.nodes.len();
        proof {
            assert(grown == a + 1);
        }
        a
    }

    /// A fresh Construct agent; every port must be wired before it may take
    /// part in a scan.
    pub fn create_construct(&mut self) -> (a: usize)
        ensures
            a == old(self)@.len(),
            final(self)@ == old(self)@.push(
                Some(Node::Construct { p0: None::<Port>, p1: None::<Port>, p2: None::<Port> }),
            ),
            old(self)@.len() + 1 <= usize::MAX,
    {
        self.create(Node::construct())
    }

    /// A fresh Duplicate agent; every port must be wired before it may take
    /// part in a scan.
    pub fn create_duplicate(&mut self) -> (a: usize)
        ensures
            a == old(self)@.len(),
            final(self)@ == old(self)@.push(
                Some(Node::Duplicate { p0: None::<Port>, p1: None::<Port>, p2: None::<Port> }),
            ),
            old(self)@.len() + 1 <= usize::MAX,
    {
        self.create(Node::duplicate())
    }

    /// A fresh Erase agent; its port must be wired before it may take part in
    /// a scan.
    pub fn create_erase(&mut self) -> (a: usize)
        ensures
            a == old(self)@.len(),
            final(self)@ == old(self)@.push(Some(Node::Erase { p0: None::<Port> })),
            old(self)@.len() + 1 <= usize::MAX,
    {
        self.create(Node::erase())
    }

    /// Remove agent `a`. Deleting an absent identifier would be an
    /// internal-consistency violation, so the precondition rules it out.
    pub fn delete(&mut self, a: usize)
        requires
            live(old(self)@, a as int),
        ensures
            final(self)@ == del(old(self)@, a as int),
    {
        self.nodes[a] = None;
    }

    fn set_slot(&mut self, x: Port, y: Port)
        requires
            in_range(old(self)@, x),
        ensures
            final(self)@ == upd(old(self)@, x, y),
    {
        let mut n = self.nodes[x.node].unwrap();
        n.set_port(x.port, y);
        self.nodes[x.node] = Some(n);
    }

    /// Wire `x` to `y` and `y` to `x`, unconditionally overwriting whatever
    /// the two slots held.
    pub fn connect(&mut self, x: Port, y: Port)
        requires
            in_range(old(self)@, x),
            in_range(old(self)@, y),
        ensures
            final(self)@ == conn(old(self)@, x, y),
    {
        proof {
            upd_frame(old(self)@, x, y);
        }
        self.set_slot(x, y);
        self.set_slot(y, x);
    }

    /// The port wired to `x`. Following a port that was never wired would be
    /// an internal-consistency violation, so the precondition rules it out.
    pub fn follow(&self, x: Port) -> (r: Port)
        requires
            in_range(self@, x),
            slot(self@, x) is Some,
        ensures
            r == tgt(self@, x),
    {
        let n = self.nodes[x.node].unwrap();
        n.port(x.port).unwrap()
    }

    /// Whether agent `a` is live.
    pub fn is_live(&self, a: usize) -> (r: bool)
        ensures
            r == live(self@, a as int),
    {
        a < self.nodes.len() && self.nodes[a].is_some()
    }

    /// The agent with identifier `a`, for inspection.
    pub fn node(&self, a: usize) -> (n: Node)
        requires
            live(self@, a as int),
        ensures
            n == node_at(self@, a as int),
    {
        self.nodes[a].unwrap()
    }

    /// The next identifier that `create` would hand out; greater than every
    /// identifier ever issued.
    pub fn next_id(&self) -> (r: usize)
        ensures
            r == self@.len(),
    {
        self.nodes.len()
    }

    /// How many agents are currently live.
    pub fn agent_count(&self) -> (r: usize)
        ensures
            r == live_count(self@),
    {
        let n = self.nodes.len();
        let mut count: usize = 0;
        let mut i: usize = 0;
        while i < n
            invariant
                n == self@.len(),
                i <= n,
                count == live_count(self@.take(i as int)),
                count <= i,
            decreases n - i,
        {
            proof {
                assert(self@.take(i + 1).drop_last() =~= self@.take(i as int));
                assert(self@.take(i + 1).last() == self@[i as int]);
            }
            if self.nodes[i].is_some() {
                count = count + 1;
            }
            i = i + 1;
        }
        proof {
            assert(self@.take(n as int) =~= self@);
        }
        count
    }

    fn eval_ee(&mut self, a: usize, b: usize)
        requires
            wf(old(self)@),
            active_pair(old(self)@, a, b),
            kind_of(node_at(old(self)@, a as int)) == Kind::Erase,
            kind_of(node_at(old(self)@, b as int)) == Kind::Erase,
        ensures
            final(self)@ == rule_ee(old(self)@, a, b),
            wf(final(self)@),
            live_count(final(self)@) + 2 == live_count(old(self)@),
            final(self)@.len() == old(self)@.len(),
    {
        proof {
            rule_ee_props(old(self)@, a, b);
            del_frame(old(self)@, a as int);
        }
        self.delete(a);
        self.delete(b);
    }

    fn eval_dd(&mut self, a: usize, b: usize)
        requires
            wf(old(self)@),
            active_pair(old(self)@, a, b),
            kind_of(node_at(old(self)@, a as int)) == Kind::Duplicate,
            kind_of(node_at(old(self)@, b as int)) == Kind::Duplicate,
        ensures
            final(self)@ == rule_dd(old(self)@, a, b),
            wf(final(self)@),
            live_count(final(self)@) + 2 == live_count(old(self)@),
            final(self)@.len() == old(self)@.len(),
    {
        let ghost v = old(self)@;
        proof {
            rule_dd_props(v, a, b);
            wf_inst(v, prt(a, 0));
            wf_inst(v, prt(a, 1));
            wf_inst(v, prt(a, 2));
            wf_inst(v, prt(b, 1));
            wf_inst(v, prt(b, 2));
        }
        let x1 = self.follow(Port::new(a, 1));
        let y1 = self.follow(Port::new(b, 1));
        self.connect(x1, y1);
        proof {
            conn_frame(v, x1, y1);
            assert(slot(self@, prt(a, 2)) is Some);
            assert(slot(self@, prt(b, 2)) is Some);
        }
        let x2 = self.follow(Port::new(a, 2));
        let y2 = self.follow(Port::new(b, 2));
        self.connect(x2, y2);
        proof {
            conn_frame(conn(v, x1, y1), x2, y2);
            del_frame(self@, a as int);
        }
        self.delete(a);
        self.delete(b);
    }

    fn eval_cc(&mut self, a: usize, b: usize)
        requires
            wf(old(self)@),
            active_pair(old(self)@, a, b),
            kind_of(node_at(old(self)@, a as int)) == Kind::Construct,
            kind_of(node_at(old(self)@, b as int)) == Kind::Construct,
        ensures
            final(self)@ == rule_cc(old(self)@, a, b),
            wf(final(self)@),
            live_count(final(self)@) + 2 == live_count(old(self)@),
            final(self)@.len() == old(self)@.len(),
    {
        let ghost v = old(self)@;
        proof {
            rule_cc_props(v, a, b);
            wf_inst(v, prt(a, 0));
            wf_inst(v, prt(a, 1));
            wf_inst(v, prt(a, 2));
            wf_inst(v, prt(b, 1));
            wf_inst(v, prt(b, 2));
        }
        let x1 = self.follow(Port::new(a, 1));
        let y1 = self.follow(Port::new(b, 2));
        self.connect(x1, y1);
        proof {
            conn_frame(v, x1, y1);
            assert(slot(self@, prt(a, 2)) is Some);
            assert(slot(self@, prt(b, 1)) is Some);
        }
        let x2 = self.follow(Port::new(a, 2));
        let y2 = self.follow(Port::new(b, 1));
        self.connect(x2, y2);
        proof {
            conn_frame(conn(v, x1, y1), x2, y2);
            del_frame(self@, a as int);
        }
        self.delete(a);
        self.delete(b);
    }

    /// Erasure of a three-port agent `a` by the Erase agent `b`: shared body
    /// of the Construct-Erase and Duplicate-Erase rules.
    fn eval_xe(&mut self, a: usize, b: usize)
        requires
            wf(old(self)@),
            active_pair(old(self)@, a, b),
            kind_of(node_at(old(self)@, a as int)) != Kind::Erase,
            kind_of(node_at(old(self)@, b as int)) == Kind::Erase,
        ensures
            final(self)@ == rule_xe(old(self)@, a, b),
            wf(final(self)@),
            live_count(final(self)@) == live_count(old(self)@),
            final(self)@.len() == old(self)@.len() + 1,
    {
        let ghost v = old(self)@;
        proof {
            wf_inst(v, prt(a, 0));
            wf_inst(v, prt(a, 1));
            wf_inst(v, prt(a, 2));
        }
        let c = self.create_erase();
        proof {
            rule_xe_props(v, a, b);
            push_frame(v, Node::Erase { p0: None });
        }
        let t1 = self.follow(Port::new(a, 1));
        self.connect(Port::new(b, 0), t1);
        proof {
            conn_frame(v.push(Some(Node::Erase { p0: None })), prt(b, 0), t1);
            assert(slot(self@, prt(a, 2)) is Some);
        }
        let t2 = self.follow(Port::new(a, 2));
        self.connect(Port::new(c, 0), t2);
        self.delete(a);
    }

    fn eval_ce(&mut self, a: usize, b: usize)
        requires
            wf(old(self)@),
            active_pair(old(self)@, a, b),
            kind_of(node_at(old(self)@, a as int)) == Kind::Construct,
            kind_of(node_at(old(self)@, b as int)) == Kind::Erase,
        ensures
            final(self)@ == rule_xe(old(self)@, a, b),
            wf(final(self)@),
            live_count(final(self)@) == live_count(old(self)@),
            final(self)@.len() == old(self)@.len() + 1,
    {
        self.eval_xe(a, b)
    }

    fn eval_de(&mut self, a: usize, b: usize)
        requires
            wf(old(self)@),
            active_pair(old(self)@, a, b),
            kind_of(node_at(old(self)@, a as int)) == Kind::Duplicate,
            kind_of(node_at(old(self)@, b as int)) == Kind::Erase,
        ensures
            final(self)@ == rule_xe(old(self)@, a, b),
            wf(final(self)@),
            live_count(final(self)@) == live_count(old(self)@),
            final(self)@.len() == old(self)@.len() + 1,
    {
        self.eval_xe(a, b)
    }

    #[verifier::rlimit(100)]
    #[verifier::spinoff_prover]
    fn eval_cd(&mut self, a: usize, b: usize)
        requires
            wf(old(self)@),
            active_pair(old(self)@, a, b),
            kind_of(node_at(old(self)@, a as int)) == Kind::Construct,
            kind_of(node_at(old(self)@, b as int)) == Kind::Duplicate,
        ensures
            final(self)@ == rule_cd(old(self)@, a, b),
            wf(final(self)@),
            live_count(final(self)@) == live_count(old(self)@) + 2,
            final(self)@.len() == old(self)@.len() + 2,
    {
        let ghost v = old(self)@;
        proof {
            wf_inst(v, prt(a, 0));
            wf_inst(v, prt(a, 1));
            wf_inst(v, prt(a, 2));
            wf_inst(v, prt(b, 1));
            wf_inst(v, prt(b, 2));
        }
        let c = self.create_construct();
        let d = self.create_duplicate();
        proof {
            rule_cd_props(v, a, b);
            push_frame(v, Node::Construct { p0: None, p1: None, p2: None });
            push_frame(
                v.push(Some(Node::Construct { p0: None, p1: None, p2: None })),
                Node::Duplicate { p0: None, p1: None, p2: None },
            );
        }
        let t1 = self.follow(Port::new(a, 1));
        let ghost v0g = self@;
        self.connect(t1, Port::new(d, 0));
        proof {
            conn_frame(v0g, t1, prt(d, 0));
            assert(slot(self@, prt(a, 2)) is Some);
            assert(in_range(self@, tgt(self@, prt(a, 2))));
        }
        let t2 = self.follow(Port::new(a, 2));
        let ghost v1g = self@;
        self.connect(t2, Port::new(b, 0));
        proof {
            conn_frame(v1g, t2, prt(b, 0));
            assert(slot(self@, prt(b, 1)) is Some);
            assert(in_range(self@, tgt(self@, prt(b, 1))));
        }
        let t3 = self.follow(Port::new(b, 1));
        let ghost v2g = self@;
        self.connect(t3, Port::new(a, 0));
        proof {
            conn_frame(v2g, t3, prt(a, 0));
            assert(slot(self@, prt(b, 2)) is Some);
            assert(in_range(self@, tgt(self@, prt(b, 2))));
        }
        let t4 = self.follow(Port::new(b, 2));
        self.connect(t4, Port::new(c, 0));
        self.connect(Port::new(b, 1), Port::new(a, 2));
        self.connect(Port::new(b, 2), Port::new(c, 2));
        self.connect(Port::new(d, 1), Port::new(a, 1));
        self.connect(Port::new(d, 2), Port::new(c, 1));
        proof {
            assert(self@ == rule_cd(v, a, b));
        }
    }

    /// Perform at most one rewrite. The scan classifies every active pair
    /// into one of six buckets by the kinds of its two agents, keeping the
    /// first pair it meets per bucket (lowest scanning identifier first, a
    /// deterministic tie-break); one rewrite is then applied from the
    /// highest-priority non-empty bucket. Returns `false`, changing nothing,
    /// exactly when no active pair exists: the net is in normal form.
    #[verifier::rlimit(100)]
    #[verifier::spinoff_prover]
    pub fn step(&mut self) -> (r: bool)
        requires
            wf(old(self)@),
        ensures
            wf(final(self)@),
            r == has_active(old(self)@),
            !r ==> final(self)@ == old(self)@,
            r ==> exists|a: usize, b: usize| #[trigger] step_to(old(self)@, final(self)@, a, b),
            final(self)@.len() >= old(self)@.len(),
    {
        let ghost v = self@;
        let n = self.nodes.len();
        let mut ee: Option<(usize, usize)> = None;
        let mut de: Option<(usize, usize)> = None;
        let mut ce: Option<(usize, usize)> = None;
        let mut dd: Option<(usize, usize)> = None;
        let mut cc: Option<(usize, usize)> = None;
        let mut cd: Option<(usize, usize)> = None;
        let mut i: usize = 0;
        while i < n
            invariant
                self@ == v,
                wf(v),
                n == v.len(),
                i <= n,
                bucket_inv(v, ee, 5, i as int),
                bucket_inv(v, de, 4, i as int),
                bucket_inv(v, ce, 3, i as int),
                bucket_inv(v, dd, 2, i as int),
                bucket_inv(v, cc, 1, i as int),
                bucket_inv(v, cd, 0, i as int),
                de matches Some(q) ==> kind_of(node_at(v, q.0 as int)) == Kind::Duplicate
                    && kind_of(node_at(v, q.1 as int)) == Kind::Erase,
                ce matches Some(q) ==> kind_of(node_at(v, q.0 as int)) == Kind::Construct
                    && kind_of(node_at(v, q.1 as int)) == Kind::Erase,
                cd matches Some(q) ==> kind_of(node_at(v, q.0 as int)) == Kind::Construct
                    && kind_of(node_at(v, q.1 as int)) == Kind::Duplicate,
            decreases n - i,
        {
            let cur = self.nodes[i];
            match cur {
                None => {},
                Some(nd) => {
                    proof {
                        assert(live(v, i as int));
                        assert(in_range(v, prt(i, 0)));
                        wf_inst(v, prt(i, 0));
                    }
                    let t = nd.port(0).unwrap();
                    if t.port == 0 && t.node > i {
                        let bid = t.node;
                        proof {
                            assert(t == tgt(v, prt(i, 0)));
                            assert(in_range(v, t));
                            assert(t == prt(bid, 0));
                            assert(active_pair(v, i, bid));
                            active_sym(v, i, bid);
                            assert(live(v, bid as int));
                        }
                        let nb = self.nodes[bid].unwrap();
                        let ka = nd.kind();
                        let kb = nb.kind();
                        proof {
                            assert forall|y: usize| #[trigger] active_pair(v, i, y) implies y
                                == bid by {
                                assert(slot(v, prt(i, 0)) == Some(prt(y, 0)));
                            }
                            assert(pair_prio(v, i, bid) == pair_prio(v, bid, i));
                        }
                        match (ka, kb) {
                            (Kind::Construct, Kind::Construct) => {
                                if cc.is_none() {
                                    cc = Some((i, bid));
                                }
                            },
                            (Kind::Construct, Kind::Duplicate) => {
                                if cd.is_none() {
                                    cd = Some((i, bid));
                                }
                            },
                            (Kind::Construct, Kind::Erase) => {
                                if ce.is_none() {
                                    ce = Some((i, bid));
                                }
                            },
                            (Kind::Duplicate, Kind::Construct) => {
                                if cd.is_none() {
                                    cd = Some((bid, i));
                                }
                            },
                            (Kind::Duplicate, Kind::Duplicate) => {
                                if dd.is_none() {
                                    dd = Some((i, bid));
                                }
                            },
                            (Kind::Duplicate, Kind::Erase) => {
                                if de.is_none() {
                                    de = Some((i, bid));
                                }
                            },
                            (Kind::Erase, Kind::Construct) => {
                                if ce.is_none() {
                                    ce = Some((bid, i));
                                }
                            },
                            (Kind::Erase, Kind::Duplicate) => {
                                if de.is_none() {
                                    de = Some((bid, i));
                                }
                            },
                            (Kind::Erase, Kind::Erase) => {
                                if ee.is_none() {
                                    ee = Some((i, bid));
                                }
                            },
                        }
                    }
                },
            }
            i = i + 1;
        }
        if let Some((pa, pb)) = ee {
            proof {
                assert forall|x: usize, y: usize| #[trigger] active_pair(v, x, y) implies
                    pair_prio(v, x, y) <= pair_prio(v, pa, pb) by {}
                assert(top_prio(v, pa, pb));
            }
            self.eval_ee(pa, pb);
            proof {
                assert(step_to(v, self@, pa, pb));
            }
            return true;
        }
        if let Some((pa, pb)) = de {
            proof {
                assert forall|x: usize, y: usize| #[trigger] active_pair(v, x, y) implies
                    pair_prio(v, x, y) <= pair_prio(v, pa, pb) by {
                    if y < x {
                        active_sym(v, x, y);
                    }
                }
                assert(top_prio(v, pa, pb));
            }
            self.eval_de(pa, pb);
            proof {
                assert(rule_of(v, pa, pb) == rule_xe(v, pa, pb));
                assert(step_to(v, self@, pa, pb));
            }
            return true;
        }
        if let Some((pa, pb)) = ce {
            proof {
                assert forall|x: usize, y: usize| #[trigger] active_pair(v, x, y) implies
                    pair_prio(v, x, y) <= pair_prio(v, pa, pb) by {
                    if y < x {
                        active_sym(v, x, y);
                    }
                }
                assert(top_prio(v, pa, pb));
            }
            self.eval_ce(pa, pb);
            proof {
                assert(rule_of(v, pa, pb) == rule_xe(v, pa, pb));
                assert(step_to(v, self@, pa, pb));
            }
            return true;
        }
        if let Some((pa, pb)) = dd {
            proof {
                assert forall|x: usize, y: usize| #[trigger] active_pair(v, x, y) implies
                    pair_prio(v, x, y) <= pair_prio(v, pa, pb) by {
                    if y < x {
                        active_sym(v, x, y);
                    }
                }
                assert(top_prio(v, pa, pb));
            }
            self.eval_dd(pa, pb);
            proof {
                assert(step_to(v, self@, pa, pb));
            }
            return true;
        }
        if let Some((pa, pb)) = cc {
            proof {
                assert forall|x: usize, y: usize| #[trigger] active_pair(v, x, y) implies
                    pair_prio(v, x, y) <= pair_prio(v, pa, pb) by {
                    if y < x {
                        active_sym(v, x, y);
                    }
                }
                assert(top_prio(v, pa, pb));
            }
            self.eval_cc(pa, pb);
            proof {
                assert(step_to(v, self@, pa, pb));
            }
            return true;
        }
        if let Some((pa, pb)) = cd {
            proof {
                assert forall|x: usize, y: usize| #[trigger] active_pair(v, x, y) implies
                    pair_prio(v, x, y) <= pair_prio(v, pa, pb) by {
                    if y < x {
                        active_sym(v, x, y);
                    }
                }
                assert(top_prio(v, pa, pb));
            }
            self.eval_cd(pa, pb);
            proof {
                assert(rule_of(v, pa, pb) == rule_cd(v, pa, pb));
                assert(step_to(v, self@, pa, pb));
            }
            return true;
        }
        proof {
            assert forall|x: usize, y: usize| #[trigger] active_pair(v, x, y) implies false by {
                if y < x {
                    active_sym(v, x, y);
                    assert(0 <= pair_prio(v, y, x) <= 5);
                } else {
                    assert(0 <= pair_prio(v, x, y) <= 5);
                }
            }
            assert(!has_active(v));
        }
        false
    }
}

} // verus!
