//! Ports: the typed connection points of a node, and what a node kind
//! declares about them.

use vstd::prelude::*;
use crate::identity::NodeId;

verus! {

/// Which side of a node a port sits on.
#[derive(Clone, Copy, Debug, PartialEq, Eq, Hash, Structural)]
pub enum Direction {
    Input,
    Output,
}

/// The data type that a port carries. Tags are compared for equality and
/// nothing else: two ports can be connected only if their tags are equal.
#[derive(Clone, Copy, Debug, PartialEq, Eq, Hash, Structural)]
pub struct TypeTag(pub u32);

/// The position of a port in its node's list of inputs or of outputs.
#[derive(Clone, Copy, Debug, PartialEq, Eq, Hash, Structural)]
pub struct PortId(pub usize);

/// Locates one port in the graph: the node that owns it, the side it sits
/// on, and its position on that side.
#[derive(Clone, Copy, Debug, PartialEq, Eq, Hash, Structural)]
pub struct PortIdentity {
    pub node: NodeId,
    pub direction: Direction,
    pub port: PortId,
}

/// One connection point of a node.
#[derive(Clone, Debug, PartialEq, Eq)]
pub struct Port {
    pub name: String,
    pub data_type: TypeTag,
}

/// What a node kind declares: its label, its ports in order, and a layout
/// hint. A node's ports are derived from it once, when the node is made.
#[derive(Clone, Debug, PartialEq, Eq)]
pub struct Descriptor {
    pub label: String,
    pub inputs: Vec<(String, TypeTag)>,
    pub outputs: Vec<(String, TypeTag)>,
    pub width: u16,
}

/// A node kind: its descriptor, and the behavior object that the graph
/// carries for it without looking inside.
#[derive(Clone, Debug, PartialEq, Eq)]
pub struct NodeKind<B> {
    pub descriptor: Descriptor,
    pub behavior: B,
}

impl PortIdentity {
    /// The input port of `node` at position `port`.
    pub fn input(node: NodeId, port: PortId) -> (identity: PortIdentity)
        ensures
            identity == (PortIdentity { node, direction: Direction::Input, port }),
    {
        PortIdentity { node, direction: Direction::Input, port }
    }

    /// The output port of `node` at position `port`.
    pub fn output(node: NodeId, port: PortId) -> (identity: PortIdentity)
        ensures
            identity == (PortIdentity { node, direction: Direction::Output, port }),
    {
        PortIdentity { node, direction: Direction::Output, port }
    }
}

impl Port {
    /// A port with the given name and data type.
    pub fn new(name: String, data_type: TypeTag) -> (port: Port)
        ensures
            port == (Port { name, data_type }),
    {
        Port { name, data_type }
    }
}

/// The port that one declared `(name, type)` pair gives.
pub open spec fn declared_port(declared: (String, TypeTag)) -> Port {
    Port { name: declared.0, data_type: declared.1 }
}

/// The ports that a declared list gives: one port for each pair, in the
/// declared order.
pub open spec fn derived_ports(declared: Seq<(String, TypeTag)>) -> Seq<Port> {
    declared.map_values(|pair: (String, TypeTag)| declared_port(pair))
}

/// Derives the ports of one side of a node from their declarations.
fn derive_side(declared: &Vec<(String, TypeTag)>) -> (ports: Vec<Port>)
    ensures
        ports@ == derived_ports(declared@),
{
    let mut ports: Vec<Port> = Vec::new();
    let mut i: usize = 0;
    while i < declared.len()
        invariant
            i <= declared.len(),
            ports@ == derived_ports(declared@.take(i as int)),
        decreases declared.len() - i,
    {
        let pair = &declared[i];
        ports.push(Port::new(pair.0.clone(), pair.1));
        i = i + 1;
        assert(ports@ =~= derived_ports(declared@.take(i as int)));
    }
    assert(declared@.take(i as int) =~= declared@);
    ports
}

impl Descriptor {
    /// Derives a node's ports: the inputs first, then the outputs, each list
    /// in declared order. A kind that declares no port on a side gives an
    /// empty list for it.
    pub fn derive_ports(&self) -> (ports: (Vec<Port>, Vec<Port>))
        ensures
            ports.0@ == derived_ports(self.inputs@),
            ports.1@ == derived_ports(self.outputs@),
    {
        (derive_side(&self.inputs), derive_side(&self.outputs))
    }
}

impl<B> NodeKind<B> {
    /// A kind with the given descriptor and behavior.
    pub fn new(descriptor: Descriptor, behavior: B) -> (kind: NodeKind<B>)
        ensures
            kind == (NodeKind { descriptor, behavior }),
    {
        NodeKind { descriptor, behavior }
    }
}

} // verus!
