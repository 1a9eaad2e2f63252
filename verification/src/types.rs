//! Agents and port references.

use vstd::prelude::*;

verus! {

/// A reference to one endpoint of a connection: an agent identifier together
/// with a port index on that agent. Index 0 is the principal port; the
/// remaining indices are auxiliary.
#[derive(Clone, Copy, Debug, PartialEq, Eq)]
pub struct Port {
    pub node: usize,
    pub port: usize,
}

impl Port {
    pub fn new(node: usize, port: usize) -> (r: Port)
        ensures
            r == (Port { node, port }),
    {
        Port { node, port }
    }

    pub fn extract(&self) -> (r: (usize, usize))
        ensures
            r.0 == self.node,
            r.1 == self.port,
    {
        (self.node, self.port)
    }
}

/// The kind of an agent, without its wiring.
#[derive(Clone, Copy, Debug, PartialEq, Eq, Structural)]
pub enum Kind {
    Construct,
    Duplicate,
    Erase,
}

/// An agent: one of three kinds, each with a fixed number of port slots.
/// A slot holds `None` until the agent has been wired into the net; a fully
/// constructed agent has every slot filled.
#[derive(Clone, Copy, Debug, PartialEq, Eq)]
pub enum Node {
    Construct { p0: Option<Port>, p1: Option<Port>, p2: Option<Port> },
    Duplicate { p0: Option<Port>, p1: Option<Port>, p2: Option<Port> },
    Erase { p0: Option<Port> },
}

pub open spec fn kind_of(n: Node) -> Kind {
    match n {
        Node::Construct { .. } => Kind::Construct,
        Node::Duplicate { .. } => Kind::Duplicate,
        Node::Erase { .. } => Kind::Erase,
    }
}

/// How many port slots an agent of this shape has.
pub open spec fn arity(n: Node) -> int {
    match n {
        Node::Erase { .. } => 1,
        _ => 3,
    }
}

/// The contents of slot `p` of agent `n`.
pub open spec fn node_get(n: Node, p: int) -> Option<Port> {
    match n {
        Node::Construct { p0, p1, p2 } => if p == 0 { p0 } else if p == 1 { p1 } else { p2 },
        Node::Duplicate { p0, p1, p2 } => if p == 0 { p0 } else if p == 1 { p1 } else { p2 },
        Node::Erase { p0 } => p0,
    }
}

/// Agent `n` with slot `p` overwritten to hold `x`.
pub open spec fn node_set(n: Node, p: int, x: Port) -> Node {
    match n {
        Node::Construct { p0, p1, p2 } => if p == 0 {
            Node::Construct { p0: Some(x), p1, p2 }
        } else if p == 1 {
            Node::Construct { p0, p1: Some(x), p2 }
        } else {
            Node::Construct { p0, p1, p2: Some(x) }
        },
        Node::Duplicate { p0, p1, p2 } => if p == 0 {
            Node::Duplicate { p0: Some(x), p1, p2 }
        } else if p == 1 {
            Node::Duplicate { p0, p1: Some(x), p2 }
        } else {
            Node::Duplicate { p0, p1, p2: Some(x) }
        },
        Node::Erase { p0 } => Node::Erase { p0: Some(x) },
    }
}

impl Node {
    /// A Construct agent with no slot wired yet.
    pub fn construct() -> (n: Node)
        ensures
            n == (Node::Construct { p0: None::<Port>, p1: None::<Port>, p2: None::<Port> }),
    {
        Node::Construct { p0: None, p1: None, p2: None }
    }

    /// A Duplicate agent with no slot wired yet.
    pub fn duplicate() -> (n: Node)
        ensures
            n == (Node::Duplicate { p0: None::<Port>, p1: None::<Port>, p2: None::<Port> }),
    {
        Node::Duplicate { p0: None, p1: None, p2: None }
    }

    /// An Erase agent with no slot wired yet.
    pub fn erase() -> (n: Node)
        ensures
            n == (Node::Erase { p0: None::<Port> }),
    {
        Node::Erase { p0: None }
    }

    pub fn kind(&self) -> (k: Kind)
        ensures
            k == kind_of(*self),
    {
        match *self {
            Node::Construct { .. } => Kind::Construct,
            Node::Duplicate { .. } => Kind::Duplicate,
            Node::Erase { .. } => Kind::Erase,
        }
    }

    pub fn port(&self, p: usize) -> (r: Option<Port>)
        requires
            p < arity(*self),
        ensures
            r == node_get(*self, p as int),
    {
        match *self {
            Node::Construct { p0, p1, p2 } => if p == 0 { p0 } else if p == 1 { p1 } else { p2 },
            Node::Duplicate { p0, p1, p2 } => if p == 0 { p0 } else if p == 1 { p1 } else { p2 },
            Node::Erase { p0 } => p0,
        }
    }

    pub fn set_port(&mut self, p: usize, x: Port)
        requires
            p < arity(*old(self)),
        ensures
            *final(self) == node_set(*old(self), p as int, x),
    {
        match *self {
            Node::Construct { p0, p1, p2 } => {
                *self = if p == 0 {
                    Node::Construct { p0: Some(x), p1, p2 }
                } else if p == 1 {
                    Node::Construct { p0, p1: Some(x), p2 }
                } else {
                    Node::Construct { p0, p1, p2: Some(x) }
                };
            },
            Node::Duplicate { p0, p1, p2 } => {
                *self = if p == 0 {
                    Node::Duplicate { p0: Some(x), p1, p2 }
                } else if p == 1 {
                    Node::Duplicate { p0, p1: Some(x), p2 }
                } else {
                    Node::Duplicate { p0, p1, p2: Some(x) }
                };
            },
            Node::Erase { .. } => {
                *self = Node::Erase { p0: Some(x) };
            },
        }
    }
}

} // verus!
