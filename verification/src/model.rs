//! The mathematical model of a net.
//!
//! A net is modelled as a sequence of slots: slot `a` holds `Some(node)` while
//! the agent with identifier `a` is live, and `None` once it has been deleted.
//! Identifiers are sequence indices and are never reused.

use vstd::prelude::*;

use crate::types::{arity, kind_of, node_get, node_set, Kind, Node, Port};

verus! {

/// Agent `a` exists and has not been deleted.
pub open spec fn live(v: Seq<Option<Node>>, a: int) -> bool {
    0 <= a < v.len() && v[a] is Some
}

pub open spec fn node_at(v: Seq<Option<Node>>, a: int) -> Node {
    v[a].unwrap()
}

/// The port reference `x` denotes an existing slot: its agent is live and its
/// index is within that agent's port count.
pub open spec fn in_range(v: Seq<Option<Node>>, x: Port) -> bool {
    live(v, x.node as int) && (x.port as int) < arity(node_at(v, x.node as int))
}

/// The contents of the slot that `x` denotes.
pub open spec fn slot(v: Seq<Option<Node>>, x: Port) -> Option<Port> {
    node_get(node_at(v, x.node as int), x.port as int)
}

/// The port that `x` is wired to.
pub open spec fn tgt(v: Seq<Option<Node>>, x: Port) -> Port {
    slot(v, x).unwrap()
}

pub open spec fn prt(a: usize, p: usize) -> Port {
    Port { node: a, port: p }
}

/// Well-formedness at one port: the slot is wired, to a live in-range port
/// other than itself, and the far side is wired straight back.
pub open spec fn wf_at(v: Seq<Option<Node>>, x: Port) -> bool {
    &&& slot(v, x) is Some
    &&& in_range(v, tgt(v, x))
    &&& tgt(v, x) != x
    &&& slot(v, tgt(v, x)) == Some(x)
}

/// The structural invariant of a fully wired net: the wiring is a perfect
/// involution over the live ports, with no port wired to itself.
pub open spec fn wf(v: Seq<Option<Node>>) -> bool {
    forall|x: Port| in_range(v, x) ==> #[trigger] wf_at(v, x)
}

pub proof fn wf_inst(v: Seq<Option<Node>>, x: Port)
    requires
        wf(v),
        in_range(v, x),
    ensures
        slot(v, x) is Some,
        in_range(v, tgt(v, x)),
        tgt(v, x) != x,
        slot(v, tgt(v, x)) == Some(x),
{
    assert(wf_at(v, x));
}

/// Slot `x` overwritten to point at `y`; nothing else changes.
pub open spec fn upd(v: Seq<Option<Node>>, x: Port, y: Port) -> Seq<Option<Node>> {
    v.update(x.node as int, Some(node_set(node_at(v, x.node as int), x.port as int, y)))
}

/// Wire `x` and `y` to each other, overwriting whatever the two slots held.
pub open spec fn conn(v: Seq<Option<Node>>, x: Port, y: Port) -> Seq<Option<Node>> {
    upd(upd(v, x, y), y, x)
}

/// Remove agent `a`; its identifier is never reused.
pub open spec fn del(v: Seq<Option<Node>>, a: int) -> Seq<Option<Node>> {
    v.update(a, None)
}

pub proof fn upd_frame(v: Seq<Option<Node>>, x: Port, y: Port)
    requires
        in_range(v, x),
    ensures
        upd(v, x, y).len() == v.len(),
        forall|c: int| #[trigger] live(upd(v, x, y), c) == live(v, c),
        forall|c: int|
            live(v, c) ==> #[trigger] kind_of(node_at(upd(v, x, y), c)) == kind_of(node_at(v, c))
                && arity(node_at(upd(v, x, y), c)) == arity(node_at(v, c)),
        forall|z: Port| #[trigger] in_range(upd(v, x, y), z) == in_range(v, z),
        slot(upd(v, x, y), x) == Some(y),
        forall|z: Port| in_range(v, z) && z != x ==> #[trigger] slot(upd(v, x, y), z) == slot(v, z),
{
    let w = upd(v, x, y);
    assert forall|z: Port| #[trigger] in_range(w, z) == in_range(v, z) by {
        if z.node == x.node {
            assert(arity(node_at(w, z.node as int)) == arity(node_at(v, z.node as int)));
        }
    }
    assert forall|z: Port| in_range(v, z) && z != x implies #[trigger] slot(w, z) == slot(v, z) by {
        if z.node == x.node {
            assert(node_get(node_set(node_at(v, x.node as int), x.port as int, y), z.port as int)
                == node_get(node_at(v, z.node as int), z.port as int));
        }
    }
}

pub proof fn conn_frame(v: Seq<Option<Node>>, x: Port, y: Port)
    requires
        in_range(v, x),
        in_range(v, y),
    ensures
        conn(v, x, y).len() == v.len(),
        forall|c: int| #[trigger] live(conn(v, x, y), c) == live(v, c),
        forall|c: int|
            live(v, c) ==> #[trigger] kind_of(node_at(conn(v, x, y), c)) == kind_of(node_at(v, c))
                && arity(node_at(conn(v, x, y), c)) == arity(node_at(v, c)),
        forall|z: Port| #[trigger] in_range(conn(v, x, y), z) == in_range(v, z),
        slot(conn(v, x, y), y) == Some(x),
        x != y ==> slot(conn(v, x, y), x) == Some(y),
        forall|z: Port|
            in_range(v, z) && z != x && z != y ==> #[trigger] slot(conn(v, x, y), z) == slot(v, z),
{
    upd_frame(v, x, y);
    upd_frame(upd(v, x, y), y, x);
}

pub proof fn del_frame(v: Seq<Option<Node>>, a: int)
    requires
        0 <= a < v.len(),
    ensures
        del(v, a).len() == v.len(),
        !live(del(v, a), a),
        forall|c: int| c != a ==> #[trigger] live(del(v, a), c) == live(v, c),
        forall|c: int|
            live(v, c) && c != a ==> #[trigger] node_at(del(v, a), c) == node_at(v, c),
        forall|z: Port|
            in_range(v, z) && z.node != a ==> #[trigger] in_range(del(v, a), z)
                && slot(del(v, a), z) == slot(v, z),
        forall|z: Port| #[trigger] in_range(del(v, a), z) ==> in_range(v, z) && z.node != a,
{
}

pub proof fn push_frame(v: Seq<Option<Node>>, n: Node)
    ensures
        v.push(Some(n)).len() == v.len() + 1,
        live(v.push(Some(n)), v.len() as int),
        node_at(v.push(Some(n)), v.len() as int) == n,
        forall|c: int|
            0 <= c < v.len() ==> #[trigger] live(v.push(Some(n)), c) == live(v, c),
        forall|c: int|
            live(v, c) ==> #[trigger] node_at(v.push(Some(n)), c) == node_at(v, c),
        forall|z: Port|
            in_range(v, z) ==> #[trigger] in_range(v.push(Some(n)), z)
                && slot(v.push(Some(n)), z) == slot(v, z),
        forall|z: Port|
            in_range(v.push(Some(n)), z) && z.node != v.len() ==> in_range(v, z),
{
}

/// How many agents are currently live.
pub open spec fn live_count(v: Seq<Option<Node>>) -> nat
    decreases v.len(),
{
    if v.len() == 0 {
        0
    } else {
        live_count(v.drop_last()) + (if v.last() is Some { 1nat } else { 0nat })
    }
}

pub proof fn count_update(v: Seq<Option<Node>>, i: int, o: Option<Node>)
    requires
        0 <= i < v.len(),
    ensures
        live_count(v.update(i, o)) + (if v[i] is Some { 1nat } else { 0nat })
            == live_count(v) + (if o is Some { 1nat } else { 0nat }),
    decreases v.len(),
{
    let w = v.update(i, o);
    if i == v.len() - 1 {
        assert(w.drop_last() =~= v.drop_last());
        assert(w.last() == o);
    } else {
        assert(w.drop_last() =~= v.drop_last().update(i, o));
        assert(w.last() == v.last());
        count_update(v.drop_last(), i, o);
    }
}

pub proof fn count_push(v: Seq<Option<Node>>, o: Option<Node>)
    ensures
        live_count(v.push(o)) == live_count(v) + (if o is Some { 1nat } else { 0nat }),
{
    assert(v.push(o).drop_last() =~= v);
    assert(v.push(o).last() == o);
}

pub proof fn count_upd(v: Seq<Option<Node>>, x: Port, y: Port)
    requires
        in_range(v, x),
    ensures
        live_count(upd(v, x, y)) == live_count(v),
{
    count_update(v, x.node as int, Some(node_set(node_at(v, x.node as int), x.port as int, y)));
}

pub proof fn count_conn(v: Seq<Option<Node>>, x: Port, y: Port)
    requires
        in_range(v, x),
        in_range(v, y),
    ensures
        live_count(conn(v, x, y)) == live_count(v),
{
    count_upd(v, x, y);
    upd_frame(v, x, y);
    count_upd(upd(v, x, y), y, x);
}

pub proof fn count_del(v: Seq<Option<Node>>, a: int)
    requires
        live(v, a),
    ensures
        live_count(del(v, a)) + 1 == live_count(v),
{
    count_update(v, a, None);
}

/// Agents `a` and `b` face each other principal port to principal port.
pub open spec fn active_pair(v: Seq<Option<Node>>, a: usize, b: usize) -> bool {
    &&& live(v, a as int)
    &&& live(v, b as int)
    &&& a != b
    &&& slot(v, prt(a, 0)) == Some(prt(b, 0))
}

pub open spec fn has_active(v: Seq<Option<Node>>) -> bool {
    exists|a: usize, b: usize| active_pair(v, a, b)
}

/// Under the involution invariant an active pair is visible from both sides.
pub proof fn active_sym(v: Seq<Option<Node>>, a: usize, b: usize)
    requires
        wf(v),
        active_pair(v, a, b),
    ensures
        active_pair(v, b, a),
{
    wf_inst(v, prt(a, 0));
}

/// Erase against Erase: both agents vanish; their sole ports pointed only at
/// each other, so no rewiring is needed.
pub open spec fn rule_ee(v: Seq<Option<Node>>, a: usize, b: usize) -> Seq<Option<Node>> {
    del(del(v, a as int), b as int)
}

/// A three-port agent `a` against an Erase `b`: a fresh Erase takes over one
/// subtree, `b` is reused for the other, and `a` vanishes. The live agent
/// count is unchanged.
pub open spec fn rule_xe(v: Seq<Option<Node>>, a: usize, b: usize) -> Seq<Option<Node>> {
    let c = v.len() as usize;
    let v0 = v.push(Some(Node::Erase { p0: None }));
    let v1 = conn(v0, prt(b, 0), tgt(v0, prt(a, 1)));
    let v2 = conn(v1, prt(c, 0), tgt(v1, prt(a, 2)));
    del(v2, a as int)
}

/// Duplicate against Duplicate: the two agents annihilate and their opposing
/// auxiliary neighbours are wired to each other, straight across.
pub open spec fn rule_dd(v: Seq<Option<Node>>, a: usize, b: usize) -> Seq<Option<Node>> {
    let v1 = conn(v, tgt(v, prt(a, 1)), tgt(v, prt(b, 1)));
    let v2 = conn(v1, tgt(v1, prt(a, 2)), tgt(v1, prt(b, 2)));
    del(del(v2, a as int), b as int)
}

/// Construct against Construct: as for Duplicate pairs, but the neighbours
/// are wired crosswise.
pub open spec fn rule_cc(v: Seq<Option<Node>>, a: usize, b: usize) -> Seq<Option<Node>> {
    let v1 = conn(v, tgt(v, prt(a, 1)), tgt(v, prt(b, 2)));
    let v2 = conn(v1, tgt(v1, prt(a, 2)), tgt(v1, prt(b, 1)));
    del(del(v2, a as int), b as int)
}

/// Construct `a` against Duplicate `b`: the pair commutes. A fresh Construct
/// `c` and a fresh Duplicate `d` are created, the four external edges are
/// reconnected through the two pairs, and four new internal edges are wired.
/// `a` and `b` survive; this is the only rule that grows the net.
pub open spec fn rule_cd(v: Seq<Option<Node>>, a: usize, b: usize) -> Seq<Option<Node>> {
    let c = v.len() as usize;
    let d = (v.len() + 1) as usize;
    let v0 = v.push(Some(Node::Construct { p0: None, p1: None, p2: None })).push(
        Some(Node::Duplicate { p0: None, p1: None, p2: None }),
    );
    let v1 = conn(v0, tgt(v0, prt(a, 1)), prt(d, 0));
    let v2 = conn(v1, tgt(v1, prt(a, 2)), prt(b, 0));
    let v3 = conn(v2, tgt(v2, prt(b, 1)), prt(a, 0));
    let v4 = conn(v3, tgt(v3, prt(b, 2)), prt(c, 0));
    let v5 = conn(v4, prt(b, 1), prt(a, 2));
    let v6 = conn(v5, prt(b, 2), prt(c, 2));
    let v7 = conn(v6, prt(d, 1), prt(a, 1));
    conn(v7, prt(d, 2), prt(c, 1))
}

pub proof fn rule_ee_props(v: Seq<Option<Node>>, a: usize, b: usize)
    requires
        wf(v),
        active_pair(v, a, b),
        kind_of(node_at(v, a as int)) == Kind::Erase,
        kind_of(node_at(v, b as int)) == Kind::Erase,
    ensures
        wf(rule_ee(v, a, b)),
        live_count(rule_ee(v, a, b)) + 2 == live_count(v),
        rule_ee(v, a, b).len() == v.len(),
        forall|c: int|
            #[trigger] live(rule_ee(v, a, b), c) == (live(v, c) && c != a && c != b),
{
    let a0 = prt(a, 0);
    let b0 = prt(b, 0);
    wf_inst(v, a0);
    let w1 = del(v, a as int);
    let w = rule_ee(v, a, b);
    del_frame(v, a as int);
    del_frame(w1, b as int);
    count_del(v, a as int);
    count_del(w1, b as int);
    assert forall|z: Port| in_range(w, z) implies #[trigger] wf_at(w, z) by {
        assert(in_range(v, z) && z.node != a && z.node != b);
        wf_inst(v, z);
        let t = tgt(v, z);
        // If z were wired into the deleted pair, the involution would make z
        // one of the pair's own ports, which it is not.
        if t.node == a {
            assert(arity(node_at(v, a as int)) == 1);
            assert(t == a0);
            assert(slot(v, a0) == Some(z));
            assert(false);
        }
        if t.node == b {
            assert(arity(node_at(v, b as int)) == 1);
            assert(t == b0);
            assert(slot(v, b0) == Some(a0));
            assert(z == a0);
            assert(false);
        }
        assert(slot(w, z) == slot(v, z));
        assert(slot(w, t) == slot(v, t));
    }
}

pub proof fn rule_xe_props(v: Seq<Option<Node>>, a: usize, b: usize)
    requires
        wf(v),
        active_pair(v, a, b),
        kind_of(node_at(v, a as int)) != Kind::Erase,
        kind_of(node_at(v, b as int)) == Kind::Erase,
        v.len() + 1 <= usize::MAX,
    ensures
        wf(rule_xe(v, a, b)),
        live_count(rule_xe(v, a, b)) == live_count(v),
        rule_xe(v, a, b).len() == v.len() + 1,
        forall|c: int|
            #[trigger] live(rule_xe(v, a, b), c)
                == ((live(v, c) && c != a) || c == v.len()),
{
    let cid = v.len() as usize;
    let a0 = prt(a, 0);
    let a1 = prt(a, 1);
    let a2 = prt(a, 2);
    let b0 = prt(b, 0);
    let c0 = prt(cid, 0);
    wf_inst(v, a0);
    assert(arity(node_at(v, a as int)) == 3);
    wf_inst(v, a1);
    wf_inst(v, a2);
    let e1 = tgt(v, a1);
    let e2 = tgt(v, a2);
    wf_inst(v, e1);
    wf_inst(v, e2);
    // The erase's only port faces a, so neither auxiliary neighbour is b0.
    assert(arity(node_at(v, b as int)) == 1);
    assert(e1 != b0 && e2 != b0);
    assert(e1 != c0 && e2 != c0);

    let v0 = v.push(Some(Node::Erase { p0: None }));
    push_frame(v, Node::Erase { p0: None });
    count_push(v, Some(Node::Erase { p0: None }));
    assert(in_range(v0, b0) && in_range(v0, e1));
    assert(tgt(v0, a1) == e1);
    let v1 = conn(v0, b0, e1);
    conn_frame(v0, b0, e1);
    count_conn(v0, b0, e1);
    // Read a2 afresh: the first connect may have overwritten it when e1 is a2
    // itself (a's two auxiliaries wired together).
    let f2 = tgt(v1, a2);
    assert(a2 != b0 && a2 != a0);
    if e1 == a2 {
        assert(slot(v1, a2) == Some(b0));
        assert(f2 == b0);
    } else {
        assert(slot(v1, a2) == slot(v0, a2));
        assert(f2 == e2);
    }
    assert(in_range(v1, c0) && in_range(v1, f2));
    let v2 = conn(v1, c0, f2);
    conn_frame(v1, c0, f2);
    count_conn(v1, c0, f2);
    let w = rule_xe(v, a, b);
    assert(w == del(v2, a as int));
    del_frame(v2, a as int);
    count_del(v2, a as int);

    assert forall|z: Port| in_range(w, z) implies #[trigger] wf_at(w, z) by {
        assert(in_range(v2, z) && z.node != a);
        if z == b0 {
            if e1 == a2 {
                // b0 was wired to a2, then c0 took it over.
                assert(slot(v2, c0) == Some(b0));
                assert(slot(v2, b0) == Some(c0) || f2 == b0);
                assert(f2 == b0 ==> slot(v1, a2) == Some(b0) && e1 == a2);
                assert(slot(v2, b0) == Some(c0));
                assert(wf_at(w, z));
            } else {
                assert(slot(v2, b0) == Some(e1));
                if e1 == b0 {
                    assert(slot(v, e1) == Some(a1));
                    assert(false);
                }
                assert(e1 == a1 ==> false);
                assert(slot(v2, e1) == Some(b0) || e1 == f2 || e1 == c0);
                if e1 == f2 {
                    assert(f2 == e2);
                    assert(e1 == e2);
                    assert(slot(v, e1) == Some(a1) && slot(v, e2) == Some(a2));
                    assert(false);
                }
                assert(slot(v2, e1) == Some(b0));
                assert(wf_at(w, z));
            }
        } else if z == c0 {
            assert(slot(v2, c0) == Some(f2));
            if f2 == b0 {
                assert(slot(v2, b0) == Some(c0));
            } else {
                assert(f2 == e2 && e2 != b0 && e2 != c0);
                if e2 == a2 {
                    assert(slot(v, a2) == Some(a2));
                    assert(false);
                }
                assert(e2 != a2 && e2 != a1);
                if e1 == a2 {
                    assert(f2 == b0);
                    assert(false);
                }
                assert(slot(v2, e2) == Some(c0));
            }
            assert(wf_at(w, z));
        } else if z == e1 && e1 != a2 {
            assert(slot(v2, e1) == Some(b0));
            assert(slot(v2, b0) == Some(e1));
            assert(wf_at(w, z));
        } else if z == f2 && f2 != b0 {
            assert(slot(v2, f2) == Some(c0));
            assert(slot(v2, c0) == Some(f2));
            assert(wf_at(w, z));
        } else {
            // Untouched ports keep their old wiring, whose far side is not a.
            assert(z.node != cid);
            assert(in_range(v, z));
            wf_inst(v, z);
            let t = tgt(v, z);
            assert(z != a1 && z != a2 && z != a0);
            if t.node == a {
                assert(t == a0 || t == a1 || t == a2);
                if t == a0 {
                    assert(slot(v, a0) == Some(b0));
                    assert(z == b0);
                    assert(false);
                }
                if t == a1 {
                    assert(z == e1 && e1 != a2);
                    assert(false);
                }
                assert(t == a2);
                assert(z == e2);
                if e1 == a2 {
                    assert(slot(v, a2) == Some(e1));
                    assert(e2 == e1);
                    assert(z == a2);
                    assert(false);
                }
                assert(z == f2 && f2 != b0);
                assert(false);
            }
            assert(slot(v2, z) == slot(v, z));
            if t == b0 {
                assert(slot(v, b0) == Some(a0));
                assert(z == a0);
                assert(false);
            }
            if t == e1 && e1 != a2 {
                assert(slot(v, e1) == Some(a1));
                assert(z == a1);
                assert(false);
            }
            if t == f2 && f2 != b0 {
                assert(f2 == e2);
                assert(slot(v, e2) == Some(a2));
                assert(z == a2);
                assert(false);
            }
            assert(t != c0);
            assert(slot(v2, t) == slot(v, t));
            assert(wf_at(w, z));
        }
    }
}

/// Shared proof for the two annihilation rules on three-port agents.
/// `cross` tells which of b's auxiliaries faces a's first auxiliary:
/// straight across for Duplicate pairs, crossed for Construct pairs.
proof fn annihilate_props(v: Seq<Option<Node>>, a: usize, b: usize, cross: bool)
    requires
        wf(v),
        active_pair(v, a, b),
        arity(node_at(v, a as int)) == 3,
        arity(node_at(v, b as int)) == 3,
    ensures
        !cross ==> wf(rule_dd(v, a, b)) && live_count(rule_dd(v, a, b)) + 2 == live_count(v)
            && rule_dd(v, a, b).len() == v.len()
            && (forall|c: int|
                #[trigger] live(rule_dd(v, a, b), c) == (live(v, c) && c != a && c != b)),
        cross ==> wf(rule_cc(v, a, b)) && live_count(rule_cc(v, a, b)) + 2 == live_count(v)
            && rule_cc(v, a, b).len() == v.len()
            && (forall|c: int|
                #[trigger] live(rule_cc(v, a, b), c) == (live(v, c) && c != a && c != b)),
{
    let a0 = prt(a, 0);
    let a1 = prt(a, 1);
    let a2 = prt(a, 2);
    let b0 = prt(b, 0);
    let b1 = prt(b, 1);
    let bf = if cross { prt(b, 2) } else { prt(b, 1) };
    let bs = if cross { prt(b, 1) } else { prt(b, 2) };
    wf_inst(v, a0);
    wf_inst(v, a1);
    wf_inst(v, a2);
    wf_inst(v, bf);
    wf_inst(v, bs);
    let x1 = tgt(v, a1);
    let y1 = tgt(v, bf);
    let x2o = tgt(v, a2);
    let y2o = tgt(v, bs);
    wf_inst(v, x1);
    wf_inst(v, y1);
    wf_inst(v, x2o);
    wf_inst(v, y2o);
    // The four auxiliary neighbours are pairwise distinct, and none of them
    // is a principal port of the active pair.
    assert(slot(v, x1) == Some(a1) && slot(v, y1) == Some(bf));
    assert(slot(v, x2o) == Some(a2) && slot(v, y2o) == Some(bs));
    assert(x1 != y1 && x1 != x2o && x1 != y2o && y1 != x2o && y1 != y2o && x2o != y2o);
    assert(x1 != a0 && x1 != b0 && y1 != a0 && y1 != b0);
    assert(x2o != a0 && x2o != b0 && y2o != a0 && y2o != b0);
    assert(x1 != a1 && y1 != bf && x2o != a2 && y2o != bs);

    let v1 = conn(v, x1, y1);
    conn_frame(v, x1, y1);
    count_conn(v, x1, y1);
    assert(a2 == y1 ==> slot(v1, a2) == Some(x1));
    assert(a2 == x1 ==> slot(v1, a2) == Some(y1));
    assert(a2 != x1 && a2 != y1 ==> slot(v1, a2) == slot(v, a2));
    assert(bs == y1 ==> slot(v1, bs) == Some(x1));
    assert(bs == x1 ==> slot(v1, bs) == Some(y1));
    assert(bs != x1 && bs != y1 ==> slot(v1, bs) == slot(v, bs));
    let x2 = tgt(v1, a2);
    let y2 = tgt(v1, bs);
    assert(x2 == x1 || x2 == y1 || x2 == x2o);
    assert(y2 == x1 || y2 == y1 || y2 == y2o);
    assert(in_range(v1, x2) && in_range(v1, y2));
    assert(x2 != y2);
    let v2 = conn(v1, x2, y2);
    conn_frame(v1, x2, y2);
    count_conn(v1, x2, y2);
    let w1 = del(v2, a as int);
    let w = del(w1, b as int);
    del_frame(v2, a as int);
    del_frame(w1, b as int);
    count_del(v2, a as int);
    count_del(w1, b as int);
    assert(w == rule_dd(v, a, b) || w == rule_cc(v, a, b));
    assert(cross ==> w == rule_cc(v, a, b));
    assert(!cross ==> w == rule_dd(v, a, b));

    assert forall|z: Port| in_range(w, z) implies #[trigger] wf_at(w, z) by {
        assert(in_range(v, z) && z.node != a && z.node != b);
        wf_inst(v, z);
        let t = tgt(v, z);
        if t.node == a {
            assert(t == a0 || t == a1 || t == a2);
            assert(t == a0 ==> z == b0 && false);
            assert(t == a1 ==> z == x1);
            assert(t == a2 ==> z == x2o);
        }
        if t.node == b {
            assert(t == b0 || t == bf || t == bs);
            assert(t == b0 ==> z == a0 && false);
            assert(t == bf ==> z == y1);
            assert(t == bs ==> z == y2o);
        }
        if z == x1 {
            // a1's neighbour: wired to y1, unless the second connect stole it.
            if x2 == x1 {
                assert(slot(v2, x1) == Some(y2) && slot(v2, y2) == Some(x1));
            } else if y2 == x1 {
                assert(slot(v2, x1) == Some(x2) && slot(v2, x2) == Some(x1));
            } else {
                assert(slot(v2, x1) == Some(y1));
                assert(y1 == x2 || y1 == y2 || slot(v2, y1) == Some(x1));
                assert(y1 == x2 ==> slot(v2, y1) == Some(y2) && y2 == x1);
                assert(y1 == y2 ==> slot(v2, y1) == Some(x2) && x2 == x1);
                assert(slot(v2, y1) == Some(x1));
            }
            assert(wf_at(w, z));
        } else if z == y1 {
            if x2 == y1 {
                assert(slot(v2, y1) == Some(y2) && slot(v2, y2) == Some(y1));
            } else if y2 == y1 {
                assert(slot(v2, y1) == Some(x2) && slot(v2, x2) == Some(y1));
            } else {
                assert(slot(v2, y1) == Some(x1));
                assert(x1 == x2 ==> slot(v2, x1) == Some(y2) && y2 == y1);
                assert(x1 == y2 ==> slot(v2, x1) == Some(x2) && x2 == y1);
                assert(slot(v2, x1) == Some(y1));
            }
            assert(wf_at(w, z));
        } else if z == x2 {
            assert(slot(v2, x2) == Some(y2) && slot(v2, y2) == Some(x2));
            assert(wf_at(w, z));
        } else if z == y2 {
            assert(slot(v2, y2) == Some(x2) && slot(v2, x2) == Some(y2));
            assert(wf_at(w, z));
        } else {
            assert(t.node != a && t.node != b);
            assert(z != x1 && z != y1 && z != x2 && z != y2);
            // z untouched; its old partner t is untouched as well.
            assert(t == x1 ==> z == a1 && false);
            assert(t == y1 ==> z == bf && false);
            assert(t == x2o ==> z == a2 && false);
            assert(t == y2o ==> z == bs && false);
            assert(t != x2 && t != y2);
            assert(slot(v2, z) == slot(v, z));
            assert(slot(v2, t) == slot(v, t));
            assert(wf_at(w, z));
        }
    }
}

pub proof fn rule_dd_props(v: Seq<Option<Node>>, a: usize, b: usize)
    requires
        wf(v),
        active_pair(v, a, b),
        kind_of(node_at(v, a as int)) == Kind::Duplicate,
        kind_of(node_at(v, b as int)) == Kind::Duplicate,
    ensures
        wf(rule_dd(v, a, b)),
        live_count(rule_dd(v, a, b)) + 2 == live_count(v),
        rule_dd(v, a, b).len() == v.len(),
        forall|c: int|
            #[trigger] live(rule_dd(v, a, b), c) == (live(v, c) && c != a && c != b),
{
    annihilate_props(v, a, b, false);
}

pub proof fn rule_cc_props(v: Seq<Option<Node>>, a: usize, b: usize)
    requires
        wf(v),
        active_pair(v, a, b),
        kind_of(node_at(v, a as int)) == Kind::Construct,
        kind_of(node_at(v, b as int)) == Kind::Construct,
    ensures
        wf(rule_cc(v, a, b)),
        live_count(rule_cc(v, a, b)) + 2 == live_count(v),
        rule_cc(v, a, b).len() == v.len(),
        forall|c: int|
            #[trigger] live(rule_cc(v, a, b), c) == (live(v, c) && c != a && c != b),
{
    annihilate_props(v, a, b, true);
}


// The commutation rule is verified in stages; the intermediate lookups of the
// rule are named so that its facts can be shared between lemmas.
spec fn cd_v0(v: Seq<Option<Node>>) -> Seq<Option<Node>> {
    v.push(Some(Node::Construct { p0: None, p1: None, p2: None })).push(
        Some(Node::Duplicate { p0: None, p1: None, p2: None }),
    )
}

spec fn cd_v1(v: Seq<Option<Node>>, a: usize) -> Seq<Option<Node>> {
    conn(cd_v0(v), tgt(cd_v0(v), prt(a, 1)), prt((v.len() + 1) as usize, 0))
}

spec fn cd_x2(v: Seq<Option<Node>>, a: usize) -> Port {
    tgt(cd_v1(v, a), prt(a, 2))
}

spec fn cd_v2(v: Seq<Option<Node>>, a: usize, b: usize) -> Seq<Option<Node>> {
    conn(cd_v1(v, a), cd_x2(v, a), prt(b, 0))
}

spec fn cd_x3(v: Seq<Option<Node>>, a: usize, b: usize) -> Port {
    tgt(cd_v2(v, a, b), prt(b, 1))
}

spec fn cd_v3(v: Seq<Option<Node>>, a: usize, b: usize) -> Seq<Option<Node>> {
    conn(cd_v2(v, a, b), cd_x3(v, a, b), prt(a, 0))
}

spec fn cd_x4(v: Seq<Option<Node>>, a: usize, b: usize) -> Port {
    tgt(cd_v3(v, a, b), prt(b, 2))
}

spec fn cd_pre(v: Seq<Option<Node>>, a: usize, b: usize) -> bool {
    &&& wf(v)
    &&& active_pair(v, a, b)
    &&& kind_of(node_at(v, a as int)) == Kind::Construct
    &&& kind_of(node_at(v, b as int)) == Kind::Duplicate
    &&& v.len() + 2 <= usize::MAX
}

/// The auxiliary neighbours of a Construct-Duplicate pair: pairwise distinct,
/// never a principal port of the pair, and never a port of a fresh agent.
proof fn cd_neighbours(v: Seq<Option<Node>>, a: usize, b: usize)
    requires
        cd_pre(v, a, b),
    ensures
        ({
            let e1 = tgt(v, prt(a, 1));
            let e2 = tgt(v, prt(a, 2));
            let e3 = tgt(v, prt(b, 1));
            let e4 = tgt(v, prt(b, 2));
            &&& slot(v, e1) == Some(prt(a, 1)) && in_range(v, e1) && e1 != prt(a, 1)
            &&& slot(v, e2) == Some(prt(a, 2)) && in_range(v, e2) && e2 != prt(a, 2)
            &&& slot(v, e3) == Some(prt(b, 1)) && in_range(v, e3) && e3 != prt(b, 1)
            &&& slot(v, e4) == Some(prt(b, 2)) && in_range(v, e4) && e4 != prt(b, 2)
            &&& e1 != e2 && e1 != e3 && e1 != e4 && e2 != e3 && e2 != e4 && e3 != e4
            &&& e1 != prt(a, 0) && e2 != prt(a, 0) && e3 != prt(a, 0) && e4 != prt(a, 0)
            &&& e1 != prt(b, 0) && e2 != prt(b, 0) && e3 != prt(b, 0) && e4 != prt(b, 0)
            &&& e1.node < v.len() && e2.node < v.len() && e3.node < v.len() && e4.node < v.len()
            &&& a < v.len() && b < v.len()
            &&& arity(node_at(v, a as int)) == 3 && arity(node_at(v, b as int)) == 3
        }),
{
    wf_inst(v, prt(a, 0));
    wf_inst(v, prt(a, 1));
    wf_inst(v, prt(a, 2));
    wf_inst(v, prt(b, 1));
    wf_inst(v, prt(b, 2));
    wf_inst(v, tgt(v, prt(a, 1)));
    wf_inst(v, tgt(v, prt(a, 2)));
    wf_inst(v, tgt(v, prt(b, 1)));
    wf_inst(v, tgt(v, prt(b, 2)));
}

/// Sizes and liveness after the commutation rule: two fresh agents, nothing
/// deleted.
#[verifier::rlimit(100)]
#[verifier::spinoff_prover]
proof fn cd_shape(v: Seq<Option<Node>>, a: usize, b: usize)
    requires
        cd_pre(v, a, b),
    ensures
        rule_cd(v, a, b).len() == v.len() + 2,
        live_count(rule_cd(v, a, b)) == live_count(v) + 2,
        forall|c: int|
            #[trigger] live(rule_cd(v, a, b), c) == (live(v, c) || c == v.len() || c == v.len()
                + 1),
        forall|z: Port|
            #[trigger] in_range(rule_cd(v, a, b), z) == (in_range(v, z) || ((z.node == v.len()
                || z.node == v.len() + 1) && z.port < 3)),
        cd_x2(v, a) == prt((v.len() + 1) as usize, 0) || cd_x2(v, a) == tgt(v, prt(a, 2)),
        cd_x3(v, a, b) == prt(b, 0) || cd_x3(v, a, b) == prt((v.len() + 1) as usize, 0)
            || cd_x3(v, a, b) == tgt(v, prt(b, 1)),
        cd_x4(v, a, b) == prt(a, 0) || cd_x4(v, a, b) == prt(b, 0) || cd_x4(v, a, b) == prt(
            (v.len() + 1) as usize,
            0,
        ) || cd_x4(v, a, b) == tgt(v, prt(b, 2)),
{
    let cid = v.len() as usize;
    let did = (v.len() + 1) as usize;
    let a0 = prt(a, 0);
    let a1 = prt(a, 1);
    let a2 = prt(a, 2);
    let b0 = prt(b, 0);
    let b1 = prt(b, 1);
    let b2 = prt(b, 2);
    let c0 = prt(cid, 0);
    let c1 = prt(cid, 1);
    let c2 = prt(cid, 2);
    let d0 = prt(did, 0);
    let d1 = prt(did, 1);
    let d2 = prt(did, 2);
    cd_neighbours(v, a, b);
    let e1 = tgt(v, a1);
    let cnode = Node::Construct { p0: None, p1: None, p2: None };
    let dnode = Node::Duplicate { p0: None, p1: None, p2: None };
    let vp = v.push(Some(cnode));
    push_frame(v, cnode);
    count_push(v, Some(cnode));
    let v0 = cd_v0(v);
    push_frame(vp, dnode);
    count_push(vp, Some(dnode));
    assert(in_range(v0, c0) && in_range(v0, c1) && in_range(v0, c2));
    assert(in_range(v0, d0) && in_range(v0, d1) && in_range(v0, d2));
    assert(tgt(v0, a1) == e1);
    let v1 = cd_v1(v, a);
    conn_frame(v0, e1, d0);
    count_conn(v0, e1, d0);
    let x2 = cd_x2(v, a);
    assert(a2 == e1 ==> slot(v1, a2) == Some(d0) && x2 == d0);
    assert(a2 != e1 ==> slot(v1, a2) == slot(v0, a2) && x2 == tgt(v, a2));
    assert(in_range(v1, x2) && in_range(v1, b0));
    let v2 = cd_v2(v, a, b);
    conn_frame(v1, x2, b0);
    count_conn(v1, x2, b0);
    let x3 = cd_x3(v, a, b);
    assert(b1 == x2 ==> slot(v2, b1) == Some(b0) && x3 == b0);
    assert(b1 == e1 && b1 != x2 ==> slot(v2, b1) == Some(d0) && x3 == d0);
    assert(b1 != x2 && b1 != e1 ==> slot(v2, b1) == slot(v, b1) && x3 == tgt(v, b1));
    assert(in_range(v2, x3) && in_range(v2, a0));
    let v3 = cd_v3(v, a, b);
    conn_frame(v2, x3, a0);
    count_conn(v2, x3, a0);
    let x4 = cd_x4(v, a, b);
    assert(b2 == x3 ==> slot(v3, b2) == Some(a0) && x4 == a0);
    assert(b2 == x2 && b2 != x3 ==> slot(v3, b2) == Some(b0) && x4 == b0);
    assert(b2 == e1 && b2 != x2 && b2 != x3 ==> slot(v3, b2) == Some(d0) && x4 == d0);
    assert(b2 != e1 && b2 != x2 && b2 != x3 ==> slot(v3, b2) == slot(v, b2) && x4 == tgt(v, b2));
    assert(in_range(v3, x4) && in_range(v3, c0));
    let v4 = conn(v3, x4, c0);
    conn_frame(v3, x4, c0);
    count_conn(v3, x4, c0);
    let v5 = conn(v4, b1, a2);
    conn_frame(v4, b1, a2);
    count_conn(v4, b1, a2);
    let v6 = conn(v5, b2, c2);
    conn_frame(v5, b2, c2);
    count_conn(v5, b2, c2);
    let v7 = conn(v6, d1, a1);
    conn_frame(v6, d1, a1);
    count_conn(v6, d1, a1);
    let w = conn(v7, d2, c1);
    conn_frame(v7, d2, c1);
    count_conn(v7, d2, c1);
    assert(w == rule_cd(v, a, b));
}

/// The final wiring after the commutation rule, slot by slot.
#[verifier::rlimit(100)]
#[verifier::spinoff_prover]
proof fn cd_facts(v: Seq<Option<Node>>, a: usize, b: usize)
    requires
        cd_pre(v, a, b),
    ensures
        ({
            let w = rule_cd(v, a, b);
            let cid = v.len() as usize;
            let did = (v.len() + 1) as usize;
            let e1 = tgt(v, prt(a, 1));
            let e2 = tgt(v, prt(a, 2));
            let e3 = tgt(v, prt(b, 1));
            let e4 = tgt(v, prt(b, 2));
            let x2 = cd_x2(v, a);
            let x3 = cd_x3(v, a, b);
            let x4 = cd_x4(v, a, b);
            &&& (prt(a, 2) == e1 ==> x2 == prt(did, 0))
            &&& (prt(a, 2) != e1 ==> x2 == e2)
            &&& (prt(b, 1) == x2 ==> x3 == prt(b, 0))
            &&& (prt(b, 1) == e1 && prt(b, 1) != x2 ==> x3 == prt(did, 0))
            &&& (prt(b, 1) != x2 && prt(b, 1) != e1 ==> x3 == e3)
            &&& (prt(b, 2) == x3 ==> x4 == prt(a, 0))
            &&& (prt(b, 2) == x2 && prt(b, 2) != x3 ==> x4 == prt(b, 0))
            &&& (prt(b, 2) == e1 && prt(b, 2) != x2 && prt(b, 2) != x3 ==> x4 == prt(did, 0))
            &&& (prt(b, 2) != e1 && prt(b, 2) != x2 && prt(b, 2) != x3 ==> x4 == e4)
            &&& slot(w, prt(a, 1)) == Some(prt(did, 1))
            &&& slot(w, prt(did, 1)) == Some(prt(a, 1))
            &&& slot(w, prt(a, 2)) == Some(prt(b, 1))
            &&& slot(w, prt(b, 1)) == Some(prt(a, 2))
            &&& slot(w, prt(b, 2)) == Some(prt(cid, 2))
            &&& slot(w, prt(cid, 2)) == Some(prt(b, 2))
            &&& slot(w, prt(cid, 1)) == Some(prt(did, 2))
            &&& slot(w, prt(did, 2)) == Some(prt(cid, 1))
            &&& slot(w, prt(cid, 0)) == Some(x4)
            &&& (x4 == prt(a, 0) ==> slot(w, prt(a, 0)) == Some(prt(cid, 0)))
            &&& (x4 != prt(a, 0) ==> slot(w, prt(a, 0)) == Some(x3))
            &&& (x4 == prt(did, 0) ==> slot(w, prt(did, 0)) == Some(prt(cid, 0)))
            &&& (x4 != prt(did, 0) && x3 == prt(did, 0) ==> slot(w, prt(did, 0)) == Some(
                prt(a, 0),
            ))
            &&& (x4 != prt(did, 0) && x3 != prt(did, 0) && x2 == prt(did, 0) ==> slot(
                w,
                prt(did, 0),
            ) == Some(prt(b, 0)))
            &&& (x4 != prt(did, 0) && x3 != prt(did, 0) && x2 != prt(did, 0) ==> slot(
                w,
                prt(did, 0),
            ) == Some(e1))
            &&& (x4 == prt(b, 0) ==> slot(w, prt(b, 0)) == Some(prt(cid, 0)))
            &&& (x4 != prt(b, 0) && x3 == prt(b, 0) ==> slot(w, prt(b, 0)) == Some(prt(a, 0)))
            &&& (x4 != prt(b, 0) && x3 != prt(b, 0) ==> slot(w, prt(b, 0)) == Some(x2))
            &&& (e1 != prt(a, 2) && e1 != prt(b, 1) && e1 != prt(b, 2) ==> slot(w, e1) == Some(
                prt(did, 0),
            ))
            &&& (x2 == e2 && e2 != prt(b, 1) && e2 != prt(b, 2) ==> slot(w, e2) == Some(
                prt(b, 0),
            ))
            &&& (x3 == e3 && e3 != prt(a, 2) && e3 != prt(b, 2) ==> slot(w, e3) == Some(
                prt(a, 0),
            ))
            &&& (x4 == e4 && e4 != prt(a, 1) && e4 != prt(a, 2) && e4 != prt(b, 1) ==> slot(
                w,
                e4,
            ) == Some(prt(cid, 0)))
            &&& forall|z: Port|
                in_range(v, z) && z != e1 && z != x2 && z != x3 && z != x4 && z.node != a
                    && z.node != b ==> #[trigger] slot(w, z) == slot(v, z)
        }),
{
    let cid = v.len() as usize;
    let did = (v.len() + 1) as usize;
    let a0 = prt(a, 0);
    let a1 = prt(a, 1);
    let a2 = prt(a, 2);
    let b0 = prt(b, 0);
    let b1 = prt(b, 1);
    let b2 = prt(b, 2);
    let c0 = prt(cid, 0);
    let c1 = prt(cid, 1);
    let c2 = prt(cid, 2);
    let d0 = prt(did, 0);
    let d1 = prt(did, 1);
    let d2 = prt(did, 2);
    cd_neighbours(v, a, b);
    let e1 = tgt(v, a1);
    let e2 = tgt(v, a2);
    let e3 = tgt(v, b1);
    let e4 = tgt(v, b2);
    let cnode = Node::Construct { p0: None, p1: None, p2: None };
    let dnode = Node::Duplicate { p0: None, p1: None, p2: None };
    let vp = v.push(Some(cnode));
    push_frame(v, cnode);
    let v0 = cd_v0(v);
    push_frame(vp, dnode);
    assert(in_range(v0, c0) && in_range(v0, c1) && in_range(v0, c2));
    assert(in_range(v0, d0) && in_range(v0, d1) && in_range(v0, d2));
    assert(tgt(v0, a1) == e1);
    let v1 = cd_v1(v, a);
    conn_frame(v0, e1, d0);
    let x2 = cd_x2(v, a);
    assert(a2 == e1 ==> slot(v1, a2) == Some(d0) && x2 == d0);
    assert(a2 != e1 ==> slot(v1, a2) == slot(v0, a2) && x2 == e2);
    assert(in_range(v1, x2) && in_range(v1, b0));
    let v2 = cd_v2(v, a, b);
    conn_frame(v1, x2, b0);
    let x3 = cd_x3(v, a, b);
    assert(b1 == x2 ==> slot(v2, b1) == Some(b0) && x3 == b0);
    assert(b1 == e1 && b1 != x2 ==> slot(v2, b1) == Some(d0) && x3 == d0);
    assert(b1 != x2 && b1 != e1 ==> slot(v2, b1) == slot(v, b1) && x3 == e3);
    assert(in_range(v2, x3) && in_range(v2, a0));
    let v3 = cd_v3(v, a, b);
    conn_frame(v2, x3, a0);
    let x4 = cd_x4(v, a, b);
    assert(b2 == x3 ==> slot(v3, b2) == Some(a0) && x4 == a0);
    assert(b2 == x2 && b2 != x3 ==> slot(v3, b2) == Some(b0) && x4 == b0);
    assert(b2 == e1 && b2 != x2 && b2 != x3 ==> slot(v3, b2) == Some(d0) && x4 == d0);
    assert(b2 != e1 && b2 != x2 && b2 != x3 ==> slot(v3, b2) == slot(v, b2) && x4 == e4);
    assert(in_range(v3, x4) && in_range(v3, c0));
    let v4 = conn(v3, x4, c0);
    conn_frame(v3, x4, c0);
    let v5 = conn(v4, b1, a2);
    conn_frame(v4, b1, a2);
    let v6 = conn(v5, b2, c2);
    conn_frame(v5, b2, c2);
    let v7 = conn(v6, d1, a1);
    conn_frame(v6, d1, a1);
    let w = conn(v7, d2, c1);
    conn_frame(v7, d2, c1);
    assert(w == rule_cd(v, a, b));
    // The four lookups are pairwise distinct values, so no reconnection
    // overwrites another.
    assert(e1 != x2 && e1 != x3 && e1 != x4);
    assert(x2 != x3 && x2 != x4 && x3 != x4);
    assert forall|z: Port|
        in_range(v, z) && z != e1 && z != x2 && z != x3 && z != x4 && z.node != a && z.node != b
            implies #[trigger] slot(w, z) == slot(v, z) by {
        assert(z.node < v.len());
        assert(slot(v0, z) == slot(v, z));
    }
}


#[verifier::rlimit(100)]
#[verifier::spinoff_prover]
pub proof fn rule_cd_props(v: Seq<Option<Node>>, a: usize, b: usize)
    requires
        wf(v),
        active_pair(v, a, b),
        kind_of(node_at(v, a as int)) == Kind::Construct,
        kind_of(node_at(v, b as int)) == Kind::Duplicate,
        v.len() + 2 <= usize::MAX,
    ensures
        wf(rule_cd(v, a, b)),
        live_count(rule_cd(v, a, b)) == live_count(v) + 2,
        rule_cd(v, a, b).len() == v.len() + 2,
        forall|c: int|
            #[trigger] live(rule_cd(v, a, b), c) == (live(v, c) || c == v.len() || c == v.len()
                + 1),
{
    let w = rule_cd(v, a, b);
    let cid = v.len() as usize;
    let did = (v.len() + 1) as usize;
    let a0 = prt(a, 0);
    let a1 = prt(a, 1);
    let a2 = prt(a, 2);
    let b0 = prt(b, 0);
    let b1 = prt(b, 1);
    let b2 = prt(b, 2);
    let c0 = prt(cid, 0);
    let c1 = prt(cid, 1);
    let c2 = prt(cid, 2);
    let d0 = prt(did, 0);
    let d1 = prt(did, 1);
    let d2 = prt(did, 2);
    let e1 = tgt(v, a1);
    let e2 = tgt(v, a2);
    let e3 = tgt(v, b1);
    let e4 = tgt(v, b2);
    let x2 = cd_x2(v, a);
    let x3 = cd_x3(v, a, b);
    let x4 = cd_x4(v, a, b);
    cd_neighbours(v, a, b);
    cd_shape(v, a, b);
    cd_facts(v, a, b);
    wf_inst(v, a0);
    assert(slot(v, b0) == Some(a0));
    // Which of the three conditional forms each lookup took can be read back
    // from its value, since the alternatives lie on distinct agents.
    assert(x2 == d0 ==> a2 == e1);
    assert(x2 == e2 ==> a2 != e1 || e2 == d0);
    assert(x3 == b0 ==> b1 == x2);
    assert(x3 == d0 ==> b1 == e1);
    assert(x4 == a0 ==> b2 == x3);
    assert(x4 == b0 ==> b2 == x2);
    assert(x4 == d0 ==> b2 == e1);

    assert forall|z: Port| in_range(w, z) implies #[trigger] wf_at(w, z) by {
        if z.node == a || z.node == b || z.node == cid || z.node == did {
            assert(z.port < 3);
            if z == a1 {
                assert(slot(w, a1) == Some(d1) && slot(w, d1) == Some(a1));
                assert(in_range(w, d1));
            } else if z == a2 {
                assert(slot(w, a2) == Some(b1) && slot(w, b1) == Some(a2));
            } else if z == b1 {
                assert(slot(w, b1) == Some(a2) && slot(w, a2) == Some(b1));
            } else if z == b2 {
                assert(slot(w, b2) == Some(c2) && slot(w, c2) == Some(b2));
                assert(in_range(w, c2));
            } else if z == c1 {
                assert(slot(w, c1) == Some(d2) && slot(w, d2) == Some(c1));
                assert(in_range(w, c1) && in_range(w, d2));
            } else if z == c2 {
                assert(slot(w, c2) == Some(b2) && slot(w, b2) == Some(c2));
            } else if z == d1 {
                assert(slot(w, d1) == Some(a1) && slot(w, a1) == Some(d1));
            } else if z == d2 {
                assert(slot(w, d2) == Some(c1) && slot(w, c1) == Some(d2));
            } else if z == a0 {
                if x4 == a0 {
                    assert(slot(w, a0) == Some(c0) && slot(w, c0) == Some(a0));
                    assert(in_range(w, c0));
                } else {
                    assert(slot(w, a0) == Some(x3));
                    if x3 == b0 {
                        assert(b1 == x2);
                        assert(x4 == b0 ==> b2 == x2 && b1 == b2 && false);
                        assert(slot(w, b0) == Some(a0));
                    } else if x3 == d0 {
                        assert(b1 == e1);
                        assert(x4 == d0 ==> b2 == e1 && b1 == b2 && false);
                        assert(slot(w, d0) == Some(a0));
                        assert(in_range(w, d0));
                    } else {
                        assert(x3 == e3);
                        assert(e3 == a2 ==> slot(v, a2) == Some(b1) && e2 == b1 && a2 != e1
                            && x2 == e2 && x3 == b0 && false);
                        assert(e3 == b2 ==> b2 == x3 && x4 == a0 && false);
                        assert(slot(w, e3) == Some(a0));
                        assert(in_range(w, e3));
                    }
                }
            } else if z == b0 {
                if x4 == b0 {
                    assert(slot(w, b0) == Some(c0) && slot(w, c0) == Some(b0));
                    assert(in_range(w, c0));
                } else if x3 == b0 {
                    assert(b1 == x2);
                    assert(x4 == a0 ==> b2 == x3 && false);
                    assert(slot(w, b0) == Some(a0) && slot(w, a0) == Some(b0));
                } else {
                    assert(slot(w, b0) == Some(x2));
                    if x2 == d0 {
                        assert(a2 == e1);
                        assert(x3 == d0 ==> b1 == e1 && false);
                        assert(x4 == d0 ==> b2 == e1 && false);
                        assert(slot(w, d0) == Some(b0));
                        assert(in_range(w, d0));
                    } else {
                        assert(x2 == e2);
                        assert(e2 == b1 ==> b1 == x2 && x3 == b0 && false);
                        assert(e2 == b2 ==> b2 == x2 && x4 == b0 && false);
                        assert(slot(w, e2) == Some(b0));
                        assert(in_range(w, e2));
                    }
                }
            } else if z == c0 {
                assert(slot(w, c0) == Some(x4));
                if x4 == a0 {
                    assert(slot(w, a0) == Some(c0));
                } else if x4 == b0 {
                    assert(slot(w, b0) == Some(c0));
                } else if x4 == d0 {
                    assert(slot(w, d0) == Some(c0));
                    assert(in_range(w, d0));
                } else {
                    assert(x4 == e4);
                    assert(e4 == a1 ==> slot(v, a1) == Some(b2) && e1 == b2 && b2 != x2
                        && b2 != x3 && x4 == d0 && false);
                    assert(e4 == a2 ==> slot(v, a2) == Some(b2) && e2 == b2 && a2 != e1
                        && x2 == e2 && x4 == b0 && false);
                    assert(e4 == b1 ==> slot(v, b1) == Some(b2) && e3 == b2 && b1 != x2
                        && b1 != e1 && x3 == e3 && x4 == a0 && false);
                    assert(slot(w, e4) == Some(c0));
                    assert(in_range(w, e4));
                }
            } else {
                assert(z == d0);
                if x4 == d0 {
                    assert(slot(w, d0) == Some(c0) && slot(w, c0) == Some(d0));
                    assert(in_range(w, c0));
                } else if x3 == d0 {
                    assert(b1 == e1);
                    assert(x4 == a0 ==> b2 == x3 && false);
                    assert(slot(w, d0) == Some(a0) && slot(w, a0) == Some(d0));
                } else if x2 == d0 {
                    assert(a2 == e1);
                    assert(x4 == b0 ==> b2 == x2 && false);
                    assert(x3 == b0 ==> b1 == x2 && false);
                    assert(slot(w, d0) == Some(b0) && slot(w, b0) == Some(d0));
                } else {
                    assert(a2 != e1 && b1 != e1 && b2 != e1);
                    assert(e1 != a2 && e1 != b1 && e1 != b2);
                    assert(slot(w, d0) == Some(e1));
                    assert(e1 != x2 && e1 != x3 && e1 != x4);
                    assert(slot(w, e1) == Some(d0));
                    assert(in_range(w, e1));
                }
            }
            assert(wf_at(w, z));
        } else {
            assert(in_range(v, z));
            wf_inst(v, z);
            let t = tgt(v, z);
            if z == e1 {
                assert(e1 != a2 && e1 != b1 && e1 != b2);
                assert(slot(w, e1) == Some(d0));
                assert(x2 == d0 ==> a2 == e1 && false);
                assert(x3 == d0 ==> b1 == e1 && false);
                assert(x4 == d0 ==> b2 == e1 && false);
                assert(slot(w, d0) == Some(e1));
                assert(in_range(w, d0));
                assert(wf_at(w, z));
            } else if z == x2 {
                assert(x2 == e2);
                assert(e2 != b1 && e2 != b2);
                assert(slot(w, e2) == Some(b0));
                assert(x4 == b0 ==> b2 == x2 && false);
                assert(x3 == b0 ==> b1 == x2 && false);
                assert(slot(w, b0) == Some(x2));
                assert(in_range(w, b0));
                assert(wf_at(w, z));
            } else if z == x3 {
                assert(x3 == e3);
                assert(e3 != a2 && e3 != b2);
                assert(slot(w, e3) == Some(a0));
                assert(x4 == a0 ==> b2 == x3 && false);
                assert(slot(w, a0) == Some(x3));
                assert(in_range(w, a0));
                assert(wf_at(w, z));
            } else if z == x4 {
                assert(x4 == e4);
                assert(e4 != a1 && e4 != a2 && e4 != b1);
                assert(slot(w, e4) == Some(c0) && slot(w, c0) == Some(e4));
                assert(in_range(w, c0));
                assert(wf_at(w, z));
            } else {
                assert(slot(w, z) == slot(v, z));
                assert(t == a0 ==> z == b0 && false);
                assert(t == b0 ==> z == a0 && false);
                assert(t == a1 ==> z == e1 && false);
                assert(t == b1 ==> slot(v, b1) == Some(z) && z == e3);
                if t == a2 {
                    assert(z == e2);
                    if a2 == e1 {
                        assert(slot(v, a1) == Some(a2) && slot(v, a2) == Some(a1));
                        assert(e2 == a1 && false);
                    } else {
                        assert(x2 == e2 && z == x2 && false);
                    }
                }
                if t == b1 {
                    assert(z == e3);
                    if b1 == x2 {
                        assert(x2 == e2 && slot(v, a2) == Some(b1));
                        assert(slot(v, b1) == Some(a2));
                        assert(e3 == a2 && z.node == a && false);
                    } else if b1 == e1 {
                        assert(slot(v, a1) == Some(b1) && slot(v, b1) == Some(a1));
                        assert(e3 == a1 && z.node == a && false);
                    } else {
                        assert(x3 == e3 && z == x3 && false);
                    }
                }
                if t == b2 {
                    assert(z == e4);
                    if b2 == x3 {
                        assert(x3 == e3 && slot(v, b1) == Some(b2));
                        assert(slot(v, b2) == Some(b1));
                        assert(e4 == b1 && z.node == b && false);
                    } else if b2 == x2 {
                        assert(x2 == e2 && slot(v, a2) == Some(b2));
                        assert(slot(v, b2) == Some(a2));
                        assert(e4 == a2 && z.node == a && false);
                    } else if b2 == e1 {
                        assert(slot(v, a1) == Some(b2) && slot(v, b2) == Some(a1));
                        assert(e4 == a1 && z.node == a && false);
                    } else {
                        assert(x4 == e4 && z == x4 && false);
                    }
                }
                assert(t.node != a && t.node != b);
                assert(t.node < v.len());
                assert(t == e1 ==> slot(v, e1) == Some(z) && z == a1 && false);
                assert(t == x2 ==> x2 == e2 && z == a2 && false);
                assert(t == x3 ==> x3 == e3 && z == b1 && false);
                assert(t == x4 ==> x4 == e4 && z == b2 && false);
                assert(slot(w, t) == slot(v, t));
                assert(in_range(w, t));
                assert(wf_at(w, z));
            }
        }
    }
}


/// The scheduling priority of an active pair: annihilating and erasing rules
/// are preferred over the one rule that grows the net.
pub open spec fn pair_prio(v: Seq<Option<Node>>, a: usize, b: usize) -> int {
    match (kind_of(node_at(v, a as int)), kind_of(node_at(v, b as int))) {
        (Kind::Erase, Kind::Erase) => 5,
        (Kind::Duplicate, Kind::Erase) => 4,
        (Kind::Erase, Kind::Duplicate) => 4,
        (Kind::Construct, Kind::Erase) => 3,
        (Kind::Erase, Kind::Construct) => 3,
        (Kind::Duplicate, Kind::Duplicate) => 2,
        (Kind::Construct, Kind::Construct) => 1,
        (Kind::Construct, Kind::Duplicate) => 0,
        (Kind::Duplicate, Kind::Construct) => 0,
    }
}

/// The net that one rewrite turns `v` into when the active pair `(a, b)` is
/// reduced; a mixed pair is first normalized into the role order its rule
/// expects.
pub open spec fn rule_of(v: Seq<Option<Node>>, a: usize, b: usize) -> Seq<Option<Node>> {
    match (kind_of(node_at(v, a as int)), kind_of(node_at(v, b as int))) {
        (Kind::Construct, Kind::Construct) => rule_cc(v, a, b),
        (Kind::Construct, Kind::Duplicate) => rule_cd(v, a, b),
        (Kind::Construct, Kind::Erase) => rule_xe(v, a, b),
        (Kind::Duplicate, Kind::Construct) => rule_cd(v, b, a),
        (Kind::Duplicate, Kind::Duplicate) => rule_dd(v, a, b),
        (Kind::Duplicate, Kind::Erase) => rule_xe(v, a, b),
        (Kind::Erase, Kind::Construct) => rule_xe(v, b, a),
        (Kind::Erase, Kind::Duplicate) => rule_xe(v, b, a),
        (Kind::Erase, Kind::Erase) => rule_ee(v, a, b),
    }
}

/// No coexisting active pair calls for a rule of higher priority.
pub open spec fn top_prio(v: Seq<Option<Node>>, a: usize, b: usize) -> bool {
    forall|x: usize, y: usize|
        #[trigger] active_pair(v, x, y) ==> pair_prio(v, x, y) <= pair_prio(v, a, b)
}

/// One step turned `v` into `w`: it reduced the active pair `(a, b)`, and no
/// pair of higher priority existed.
pub open spec fn step_to(v: Seq<Option<Node>>, w: Seq<Option<Node>>, a: usize, b: usize) -> bool {
    &&& active_pair(v, a, b)
    &&& top_prio(v, a, b)
    &&& w == rule_of(v, a, b)
}

/// What the scan knows about one bucket once the agents below `scanned` have
/// been looked at: a recorded pair is a genuine active pair of this priority,
/// and an empty bucket means no such pair starts below `scanned`.
pub open spec fn bucket_inv(
    v: Seq<Option<Node>>,
    o: Option<(usize, usize)>,
    p: int,
    scanned: int,
) -> bool {
    &&& (o matches Some(q) ==> active_pair(v, q.0, q.1) && pair_prio(v, q.0, q.1) == p)
    &&& (o is None ==> forall|x: usize, y: usize|
        x < scanned && x < y && #[trigger] active_pair(v, x, y) ==> pair_prio(v, x, y) != p)
}

/// The canonical seed configuration: Erase agents 0 and 1, Construct 2,
/// Duplicate 3, wired 0.0-2.1, 2.2-3.1, 3.2-1.0, 2.0-3.0.
pub open spec fn seed() -> Seq<Option<Node>> {
    seq![
        Some(Node::Erase { p0: Some(prt(2, 1)) }),
        Some(Node::Erase { p0: Some(prt(3, 2)) }),
        Some(
            Node::Construct {
                p0: Some(prt(3, 0)),
                p1: Some(prt(0, 0)),
                p2: Some(prt(3, 1)),
            },
        ),
        Some(
            Node::Duplicate {
                p0: Some(prt(2, 0)),
                p1: Some(prt(2, 2)),
                p2: Some(prt(1, 0)),
            },
        ),
    ]
}

pub proof fn seed_wf()
    ensures
        wf(seed()),
        live_count(seed()) == 4,
        seed().len() == 4,
{
    let s = seed();
    let e: Seq<Option<Node>> = Seq::empty();
    assert(s =~= e.push(s[0]).push(s[1]).push(s[2]).push(s[3]));
    count_push(e, s[0]);
    count_push(e.push(s[0]), s[1]);
    count_push(e.push(s[0]).push(s[1]), s[2]);
    count_push(e.push(s[0]).push(s[1]).push(s[2]), s[3]);
    assert forall|x: Port| in_range(s, x) implies #[trigger] wf_at(s, x) by {
        assert(0 <= x.node < 4);
        if x.node == 0 || x.node == 1 {
            assert(x.port == 0);
        } else {
            assert(x.port < 3);
        }
        assert(wf_at(s, x));
    }
}

} // verus!
