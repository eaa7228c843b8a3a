//! The interactive core of a node-graph editor: generation-checked node
//! identities, typed ports and edges, the graph store that owns them, and the
//! gesture state machine that turns pointer events into graph mutations.

pub mod controller;
pub mod edge;
pub mod error;
pub mod geometry;
pub mod graph;
pub mod identity;
pub mod laws;
pub mod node;
pub mod port;
pub mod registry;
pub mod slots;

pub use controller::{DragState, Effect, Gesture, InteractionController, Message};
pub use edge::{Edge, Pending};
pub use error::Error;
pub use geometry::{Offset, Point};
pub use graph::GraphStore;
pub use identity::NodeId;
pub use node::NodeWidget;
pub use port::{Descriptor, Direction, NodeKind, Port, PortId, PortIdentity, TypeTag};
pub use registry::{IdentityRegistry, MAX_LIVE};
