//! The ways an operation on the graph can be refused.

use vstd::prelude::*;

verus! {

/// Why an operation was refused. Every refusal leaves the graph as it was.
#[derive(Clone, Copy, Debug, PartialEq, Eq, Structural)]
pub enum Error {
    /// The identity's generation is not the live one at its index: the handle
    /// outlived its node, or never named one.
    StaleIdentity,
    /// No live node has this identity.
    UnknownNode,
    /// The node has no port at this position in this direction.
    UnknownPort,
    /// The graph holds no such edge.
    UnknownEdge,
    /// A connection must run from an output port to an input port.
    DirectionMismatch,
    /// The two ports carry different data types.
    TypeMismatch,
}

} // verus!
