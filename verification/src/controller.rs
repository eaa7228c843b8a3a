//! The interaction controller: the state machine that turns pointer events
//! into mutations of the graph. One gesture is active at a time.

use vstd::prelude::*;
use crate::edge::{Edge, Pending};
use crate::error::Error;
use crate::geometry::{Offset, Point};
use crate::graph::{
    away_from, connect_check, not_into, port_at, removed, same_identities, GraphStore,
};
use crate::identity::NodeId;
use crate::node::NodeWidget;
use crate::port::{NodeKind, PortIdentity};
use crate::registry::retire;

verus! {

/// A node drag in progress: the node, and where the pointer held it when the
/// drag began, as the displacement from the node's position to the pointer.
#[derive(Clone, Copy, Debug, PartialEq, Eq, Hash, Structural)]
pub struct DragState {
    pub node: NodeId,
    pub offset: Offset,
}

/// What the pointer is doing.
#[derive(Clone, Copy, Debug, PartialEq, Eq, Hash, Structural)]
pub enum Gesture {
    /// No gesture is active.
    Idle,
    /// A node is being dragged across the canvas.
    DraggingNode(DragState),
    /// An edge is being drawn from a port to wherever the pointer goes.
    DrawingEdge(Pending),
}

/// An event for the controller.
#[derive(Clone, Debug, PartialEq, Eq)]
pub enum Message<M> {
    /// A message of a node's own behavior, tagged with the node it came
    /// from. The controller hands it on without looking inside.
    Dynamic(NodeId, M),
    /// The node is to be removed.
    Remove(NodeId),
    /// The pointer was pressed on the node's title bar, at the given point.
    /// A press on the node's body or on one of its ports is not this event.
    DragStart(NodeId, Point),
    /// The pointer moved to the given point.
    DragMove(Point),
    /// The pointer was released after a press on a node's title bar. It ends
    /// the drag in progress, whichever node it names.
    DragEnd(NodeId),
    /// The pointer was pressed on a port, an input or an output.
    StartEdge(Pending),
    /// The pointer was released on the given port.
    CommitEdge(PortIdentity),
    /// The pointer was released away from every port.
    CancelEdge,
}

/// What an event did to the graph. The controller reports; it never fails.
#[derive(Clone, Debug, PartialEq, Eq)]
pub enum Effect<B, M> {
    /// The graph is as it was.
    Nothing,
    /// The node now stands at the point.
    Moved(NodeId, Point),
    /// The edge was committed.
    Connected(Edge),
    /// A node was removed; this is its kind, for the caller to tear down.
    Removed(NodeKind<B>),
    /// The message belongs to the node's behavior, for the caller to
    /// deliver.
    Forward(NodeId, M),
    /// The graph refused what the event asked for, and is as it was.
    Refused(Error),
}

/// Whether the gesture `gesture` has the node `id` as its target.
pub open spec fn targets(gesture: Gesture, id: NodeId) -> bool {
    match gesture {
        Gesture::Idle => false,
        Gesture::DraggingNode(drag) => drag.node == id,
        Gesture::DrawingEdge(pending) => pending.origin.node == id,
    }
}

impl Gesture {
    /// Whether the gesture has the node `id` as its target.
    pub fn has_target(&self, id: NodeId) -> (targeted: bool)
        ensures
            targeted == targets(*self, id),
    {
        match self {
            Gesture::Idle => false,
            Gesture::DraggingNode(drag) => drag.node == id,
            Gesture::DrawingEdge(pending) => pending.origin.node == id,
        }
    }
}

/// The gesture that follows `before` when `message` arrives and the graph
/// holds `nodes`.
///
/// A press starts a gesture only from `Idle` and only on a node or port that
/// is there; while a gesture is active a press changes nothing. A release
/// ends the gesture it belongs to and no other. Removing the node that the
/// active gesture targets ends the gesture.
pub open spec fn next_gesture<B, M>(
    before: Gesture,
    nodes: Map<NodeId, NodeWidget<B>>,
    message: Message<M>,
) -> Gesture {
    match message {
        Message::Dynamic(_, _) => before,
        Message::Remove(id) => if nodes.dom().contains(id) && targets(before, id) {
            Gesture::Idle
        } else {
            before
        },
        Message::DragStart(id, pointer) => if before is Idle && nodes.dom().contains(id) {
            Gesture::DraggingNode(
                DragState { node: id, offset: pointer.spec_offset_from(nodes[id].position) },
            )
        } else {
            before
        },
        Message::DragMove(_) => before,
        Message::DragEnd(_) => if before is DraggingNode {
            Gesture::Idle
        } else {
            before
        },
        Message::StartEdge(pending) => if before is Idle && port_at(nodes, pending.origin) is Ok {
            Gesture::DrawingEdge(pending)
        } else {
            before
        },
        Message::CommitEdge(_) => if before is DrawingEdge {
            Gesture::Idle
        } else {
            before
        },
        Message::CancelEdge => if before is DrawingEdge {
            Gesture::Idle
        } else {
            before
        },
    }
}

/// What the controller reports for `message`, arriving during `before` while
/// the graph holds `nodes`: what was done to the graph, or the graph's
/// refusal.
///
/// An event that belongs to no gesture in progress does nothing: a move or a
/// release while idle, a release of a drag while an edge is drawn, a release
/// of an edge while a node is dragged.
pub open spec fn effect<B, M>(
    before: Gesture,
    nodes: Map<NodeId, NodeWidget<B>>,
    message: Message<M>,
) -> Effect<B, M> {
    match message {
        Message::Dynamic(id, inner) => Effect::Forward(id, inner),
        Message::Remove(id) => if nodes.dom().contains(id) {
            Effect::Removed(nodes[id].node)
        } else {
            Effect::Refused(Error::UnknownNode)
        },
        Message::DragStart(id, _) => if before is Idle && !nodes.dom().contains(id) {
            Effect::Refused(Error::UnknownNode)
        } else {
            Effect::Nothing
        },
        Message::DragMove(pointer) => match before {
            Gesture::DraggingNode(drag) => if nodes.dom().contains(drag.node) {
                Effect::Moved(drag.node, pointer.spec_back_by(drag.offset))
            } else {
                Effect::Refused(Error::UnknownNode)
            },
            _ => Effect::Nothing,
        },
        Message::DragEnd(_) => Effect::Nothing,
        Message::StartEdge(pending) => match port_at(nodes, pending.origin) {
            Err(error) if before is Idle => Effect::Refused(error),
            _ => Effect::Nothing,
        },
        Message::CommitEdge(target) => match before {
            Gesture::DrawingEdge(pending) => match connect_check(
                nodes,
                pending.spec_toward(target).from,
                pending.spec_toward(target).to,
            ) {
                Ok(edge) => Effect::Connected(edge),
                Err(error) => Effect::Refused(error),
            },
            _ => Effect::Nothing,
        },
        Message::CancelEdge => Effect::Nothing,
    }
}

/// The nodes of the graph after an event that the controller reported
/// `effect` for.
pub open spec fn nodes_after<B, M>(
    nodes: Map<NodeId, NodeWidget<B>>,
    message: Message<M>,
    effect: Effect<B, M>,
) -> Map<NodeId, NodeWidget<B>> {
    match (message, effect) {
        (Message::Remove(id), Effect::Removed(_)) => nodes.remove(id),
        (_, Effect::Moved(id, position)) => nodes.insert(id, nodes[id].moved_to(position)),
        _ => nodes,
    }
}

/// The edges of the graph after an event that the controller reported
/// `effect` for.
pub open spec fn edges_after<B, M>(
    edges: Seq<Edge>,
    message: Message<M>,
    effect: Effect<B, M>,
) -> Seq<Edge> {
    match (message, effect) {
        (Message::Remove(id), Effect::Removed(_)) => edges.filter(away_from(id)),
        (_, Effect::Connected(edge)) => edges.filter(not_into(edge.to)).push(edge),
        _ => edges,
    }
}

/// The retired identities after an event that the controller reported
/// `effect` for.
pub open spec fn retired_after<B, M>(
    retired: Set<NodeId>,
    message: Message<M>,
    effect: Effect<B, M>,
) -> Set<NodeId> {
    match (message, effect) {
        (Message::Remove(id), Effect::Removed(_)) => retire(retired, id),
        _ => retired,
    }
}

/// Whether `message` is a press: an event that would start a gesture.
pub open spec fn is_press<M>(message: Message<M>) -> bool {
    message is DragStart || message is StartEdge
}

/// The state machine between the pointer and the graph.
pub struct InteractionController {
    state: Gesture,
}

impl InteractionController {
    /// The gesture that is active.
    pub closed spec fn gesture(&self) -> Gesture {
        self.state
    }

    /// A controller with no gesture active.
    pub fn new() -> (controller: Self)
        ensures
            controller.gesture() == Gesture::Idle,
    {
        InteractionController { state: Gesture::Idle }
    }

    /// The gesture that is active.
    pub fn state(&self) -> (gesture: Gesture)
        ensures
            gesture == self.gesture(),
    {
        self.state
    }

    /// Deals with one event: moves to the next gesture, changes the graph as
    /// the event asks, and reports what was done. Where the graph refuses,
    /// the refusal is what is reported, and the graph is as it was.
    ///
    /// Committing an edge ends the gesture whether or not the graph accepts
    /// the edge. A move of a dragged node that is no longer there is
    /// reported as refused and leaves the drag in progress.
    pub fn handle<B, M>(
        &mut self,
        graph: &mut GraphStore<B>,
        message: Message<M>,
    ) -> (done: Effect<B, M>)
        requires
            old(graph).wf(),
        ensures
            final(graph).wf(),
            final(self).gesture() == next_gesture(
                old(self).gesture(),
                old(graph).nodes(),
                message,
            ),
            done == effect(old(self).gesture(), old(graph).nodes(), message),
            final(graph).nodes() == nodes_after(old(graph).nodes(), message, done),
            final(graph).edges() == edges_after(old(graph).edges(), message, done),
            final(graph).retired() == retired_after(old(graph).retired(), message, done),
            match (message, done) {
                (Message::Remove(id), Effect::Removed(_)) => removed(
                    *old(graph),
                    *final(graph),
                    id,
                ),
                _ => same_identities(*old(graph), *final(graph)),
            },
            !(old(self).gesture() is Idle) && is_press(message) ==> {
                &&& *final(self) == *old(self)
                &&& *final(graph) == *old(graph)
                &&& done == Effect::<B, M>::Nothing
            },
    {
        match message {
            Message::Dynamic(id, inner) => Effect::Forward(id, inner),
            Message::Remove(id) => match graph.remove_node(id) {
                Ok(kind) => {
                    if self.state.has_target(id) {
                        self.state = Gesture::Idle;
                    }
                    Effect::Removed(kind)
                },
                Err(error) => Effect::Refused(error),
            },
            Message::DragStart(id, pointer) => match self.state {
                Gesture::Idle => match graph.node(id) {
                    Ok(node) => {
                        let offset: Offset = pointer.offset_from(node.position);
                        self.state = Gesture::DraggingNode(DragState { node: id, offset });
                        Effect::Nothing
                    },
                    Err(error) => Effect::Refused(error),
                },
                _ => Effect::Nothing,
            },
            Message::DragMove(pointer) => match self.state {
                Gesture::DraggingNode(drag) => {
                    let position: Point = pointer.back_by(drag.offset);
                    match graph.move_node(drag.node, position) {
                        Ok(()) => Effect::Moved(drag.node, position),
                        Err(error) => Effect::Refused(error),
                    }
                },
                _ => Effect::Nothing,
            },
            Message::DragEnd(_) => {
                if let Gesture::DraggingNode(_) = self.state {
                    self.state = Gesture::Idle;
                }
                Effect::Nothing
            },
            Message::StartEdge(pending) => match self.state {
                Gesture::Idle => match graph.port(pending.origin) {
                    Ok(_) => {
                        self.state = Gesture::DrawingEdge(pending);
                        Effect::Nothing
                    },
                    Err(error) => Effect::Refused(error),
                },
                _ => Effect::Nothing,
            },
            Message::CommitEdge(target) => match self.state {
                Gesture::DrawingEdge(pending) => {
                    self.state = Gesture::Idle;
                    let wanted: Edge = pending.toward(target);
                    match graph.connect(wanted.from, wanted.to) {
                        Ok(edge) => Effect::Connected(edge),
                        Err(error) => Effect::Refused(error),
                    }
                },
                _ => Effect::Nothing,
            },
            Message::CancelEdge => {
                if let Gesture::DrawingEdge(_) = self.state {
                    self.state = Gesture::Idle;
                }
                Effect::Nothing
            },
        }
    }
}

} // verus!
