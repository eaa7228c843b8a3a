//! A node as the graph holds it.

use vstd::prelude::*;
use crate::geometry::Point;
use crate::identity::NodeId;
use crate::port::{derived_ports, NodeKind, Port};

verus! {

/// A node of the graph: its identity, where it stands on the canvas, its
/// ports, and its kind. The ports are derived from the kind's descriptor when
/// the node is made and stay as they are for the node's lifetime.
#[derive(Clone, Debug, PartialEq, Eq)]
pub struct NodeWidget<B> {
    pub id: NodeId,
    pub position: Point,
    pub inputs: Vec<Port>,
    pub outputs: Vec<Port>,
    pub node: NodeKind<B>,
}

impl<B> NodeWidget<B> {
    /// Whether this is the node that `new` makes from the three arguments.
    pub open spec fn is_new(self, id: NodeId, position: Point, node: NodeKind<B>) -> bool {
        &&& self.id == id
        &&& self.position == position
        &&& self.node == node
        &&& self.inputs@ == derived_ports(node.descriptor.inputs@)
        &&& self.outputs@ == derived_ports(node.descriptor.outputs@)
    }

    /// This node standing at `position` instead.
    pub open spec fn moved_to(self, position: Point) -> NodeWidget<B> {
        NodeWidget { position, ..self }
    }

    /// This node with `behavior` as its kind's behavior object instead.
    pub open spec fn with_behavior(self, behavior: B) -> NodeWidget<B> {
        NodeWidget { node: NodeKind { behavior, ..self.node }, ..self }
    }

    /// A node of kind `node` at `position`, with the ports that the kind's
    /// descriptor declares.
    pub fn new(id: NodeId, position: Point, node: NodeKind<B>) -> (widget: NodeWidget<B>)
        ensures
            widget.is_new(id, position, node),
    {
        let (inputs, outputs) = node.descriptor.derive_ports();
        NodeWidget { id, position, inputs, outputs, node }
    }

    /// The label that the node's kind declares.
    pub fn label(&self) -> (label: &str)
        ensures
            label@ == self.node.descriptor.label@,
    {
        self.node.descriptor.label.as_str()
    }
}

} // verus!
