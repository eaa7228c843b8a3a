//! Edges between ports, and the connection gesture in progress.

use vstd::prelude::*;
use crate::identity::NodeId;
use crate::port::{Direction, PortId, PortIdentity};

verus! {

/// A committed connection: data flows from an output port to an input port.
#[derive(Clone, Copy, Debug, PartialEq, Eq, Hash, Structural)]
pub struct Edge {
    pub from: PortIdentity,
    pub to: PortIdentity,
}

impl Edge {
    /// Whether `port` is one of the edge's two ends.
    pub open spec fn touches(self, port: PortIdentity) -> bool {
        self.from == port || self.to == port
    }

    /// Whether one of the edge's ends is a port of `node`.
    pub open spec fn touches_node(self, node: NodeId) -> bool {
        self.from.node == node || self.to.node == node
    }

    /// Whether `port` is one of the edge's two ends.
    pub fn is_at(&self, port: PortIdentity) -> (at: bool)
        ensures
            at == self.touches(port),
    {
        self.from == port || self.to == port
    }

    /// Whether one of the edge's ends is a port of `node`.
    pub fn is_at_node(&self, node: NodeId) -> (at: bool)
        ensures
            at == self.touches_node(node),
    {
        self.from.node == node || self.to.node == node
    }
}

/// A connection gesture in progress: the port where the drag began. It is no
/// part of the graph and ends when the gesture is committed or cancelled.
#[derive(Clone, Copy, Debug, PartialEq, Eq, Hash, Structural)]
pub struct Pending {
    pub origin: PortIdentity,
}

impl Pending {
    /// A gesture that began on the input port of `node` at position `port`.
    pub fn input(node: NodeId, port: PortId) -> (pending: Pending)
        ensures
            pending.origin == (PortIdentity { node, direction: Direction::Input, port }),
    {
        Pending { origin: PortIdentity { node, direction: Direction::Input, port } }
    }

    /// A gesture that began on the output port of `node` at position `port`.
    pub fn output(node: NodeId, port: PortId) -> (pending: Pending)
        ensures
            pending.origin == (PortIdentity { node, direction: Direction::Output, port }),
    {
        Pending { origin: PortIdentity { node, direction: Direction::Output, port } }
    }

    /// The side of its node on which the gesture began.
    pub fn origin_direction(&self) -> (direction: Direction)
        ensures
            direction == self.origin.direction,
    {
        self.origin.direction
    }

    /// The edge that committing the gesture on `target` asks for: whichever
    /// of the two ports is the output gives `from`, the other gives `to`.
    pub open spec fn spec_toward(self, target: PortIdentity) -> Edge {
        if self.origin.direction == Direction::Output {
            Edge { from: self.origin, to: target }
        } else {
            Edge { from: target, to: self.origin }
        }
    }

    /// The edge that committing the gesture on `target` asks for: whichever
    /// of the two ports is the output gives `from`, the other gives `to`.
    /// Whether the graph accepts that edge is for the graph to say.
    pub fn toward(&self, target: PortIdentity) -> (edge: Edge)
        ensures
            edge == self.spec_toward(target),
    {
        match self.origin.direction {
            Direction::Output => Edge { from: self.origin, to: target },
            Direction::Input => Edge { from: target, to: self.origin },
        }
    }
}

} // verus!
