//! The laws of the reduction engine, stated over the net model.

use vstd::prelude::*;

use crate::model::{
    active_pair, active_sym, has_active, in_range, live_count, node_at, rule_cc_props,
    rule_cd_props, rule_dd_props, rule_ee_props, rule_of, rule_xe_props, tgt, wf, wf_inst,
};
use crate::types::{kind_of, Kind, Node, Port};

verus! {

/// The wiring of a well-formed net is an involution: following any live port
/// twice returns the original port, and no port is wired to itself. `Net::new`
/// establishes well-formedness and `Net::step` preserves it, so this holds of
/// every reachable net state.
pub proof fn lemma_involution(v: Seq<Option<Node>>, x: Port)
    requires
        wf(v),
        in_range(v, x),
    ensures
        in_range(v, tgt(v, x)),
        tgt(v, tgt(v, x)) == x,
        tgt(v, x) != x,
{
    wf_inst(v, x);
}

/// A normal form is stable. `Net::step` returns `has_active` of the net it
/// was given and leaves the net unchanged when that is false; so once one
/// call has returned `false`, the net still has no active pair, and every
/// later call on it returns `false` as well.
pub proof fn lemma_normal_form_stable(v: Seq<Option<Node>>, w: Seq<Option<Node>>, r: bool)
    requires
        r == has_active(v),
        !r ==> w == v,
    ensures
        !r ==> !has_active(w),
{
}

/// The three annihilation rules shrink the net: reducing an active pair of
/// two agents of the same kind deletes exactly the two of them.
pub proof fn lemma_annihilation_shrinks(v: Seq<Option<Node>>, a: usize, b: usize)
    requires
        wf(v),
        active_pair(v, a, b),
        kind_of(node_at(v, a as int)) == kind_of(node_at(v, b as int)),
    ensures
        live_count(rule_of(v, a, b)) + 2 == live_count(v),
{
    match kind_of(node_at(v, a as int)) {
        Kind::Erase => rule_ee_props(v, a, b),
        Kind::Duplicate => rule_dd_props(v, a, b),
        Kind::Construct => rule_cc_props(v, a, b),
    }
}

/// The commutation rule is the only one that grows the net, and it grows it
/// by exactly two agents, whichever way round the pair was scanned.
pub proof fn lemma_commutation_grows(v: Seq<Option<Node>>, a: usize, b: usize)
    requires
        wf(v),
        active_pair(v, a, b),
        kind_of(node_at(v, a as int)) != kind_of(node_at(v, b as int)),
        kind_of(node_at(v, a as int)) != Kind::Erase,
        kind_of(node_at(v, b as int)) != Kind::Erase,
        v.len() + 2 <= usize::MAX,
    ensures
        live_count(rule_of(v, a, b)) == live_count(v) + 2,
{
    if kind_of(node_at(v, a as int)) == Kind::Construct {
        rule_cd_props(v, a, b);
    } else {
        active_sym(v, a, b);
        rule_cd_props(v, b, a);
    }
}

/// Erasing a three-port agent leaves the live agent count unchanged: the
/// erased agent goes, one fresh Erase agent comes.
pub proof fn lemma_erasure_preserves_count(v: Seq<Option<Node>>, a: usize, b: usize)
    requires
        wf(v),
        active_pair(v, a, b),
        kind_of(node_at(v, a as int)) != kind_of(node_at(v, b as int)),
        kind_of(node_at(v, a as int)) == Kind::Erase || kind_of(node_at(v, b as int))
            == Kind::Erase,
        v.len() + 1 <= usize::MAX,
    ensures
        live_count(rule_of(v, a, b)) == live_count(v),
{
    if kind_of(node_at(v, b as int)) == Kind::Erase {
        rule_xe_props(v, a, b);
    } else {
        active_sym(v, a, b);
        rule_xe_props(v, b, a);
    }
}

} // verus!
