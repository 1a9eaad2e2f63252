//! A graph-rewriting reduction engine for Lafont's interaction combinators:
//! a net of Construct, Duplicate and Erase agents wired port-to-port, reduced
//! one active pair at a time until no active pair remains.

pub mod laws;
pub mod model;
pub mod net;
pub mod types;
