//! Laws of the graph and of the controller: what holds across calls, stated
//! over the same spec functions as the contracts of the calls themselves.

use vstd::prelude::*;
use crate::controller::{
    edges_after, effect, is_press, next_gesture, nodes_after, retired_after, DragState, Effect,
    Gesture, Message,
};
use crate::edge::{Edge, Pending};
use crate::error::Error;
use crate::geometry::Point;
use crate::graph::{
    at, away_from, connect_check, connected, disconnect_check, disconnected, inputs_fed_once, into,
    lemma_selected_edges, not_into, other_than, port_at, removed, same_identities, spawned,
    GraphStore,
};
use crate::identity::NodeId;
use crate::node::NodeWidget;
use crate::port::{Direction, Port, PortIdentity};
use crate::registry::retire;

verus! {

/// A selection that none of the edges meets selects nothing.
pub proof fn lemma_none_selected(edges: Seq<Edge>, selects: spec_fn(Edge) -> bool)
    requires
        forall|i: int| 0 <= i < edges.len() ==> !selects(#[trigger] edges[i]),
    ensures
        edges.filter(selects) == Seq::<Edge>::empty(),
    decreases edges.len(),
{
    reveal(Seq::filter);
    if edges.len() > 0 {
        let rest = edges.drop_last();
        assert forall|i: int| 0 <= i < rest.len() implies !selects(#[trigger] rest[i]) by {
            assert(rest[i] == edges[i]);
        }
        lemma_none_selected(rest, selects);
        assert(!selects(edges[edges.len() - 1]));
    }
}

/// No two live nodes share an identity: each node carries the identity it is
/// held under.
pub proof fn law_live_identities_are_distinct<B>(graph: GraphStore<B>, a: NodeId, b: NodeId)
    requires
        graph.wf(),
        graph.nodes().dom().contains(a),
        graph.nodes().dom().contains(b),
        a != b,
    ensures
        graph.nodes()[a].id != graph.nodes()[b].id,
{
}

/// Retired identities stay retired when another identity is retired, and the
/// newly retired one joins them. The one exception is an identity of the last
/// generation: retiring it exhausts its index, and the identities retired at
/// that index are forgotten.
pub proof fn law_retired_identities_accumulate(retired: Set<NodeId>, id: NodeId, other: NodeId)
    ensures
        id.generation < u32::MAX ==> retire(retired, id).contains(id),
        retired.contains(other) && (id.generation < u32::MAX || other.index != id.index)
            ==> retire(retired, id).contains(other),
{
}

/// A fresh identity is none of the retired ones and none of the live ones:
/// what a removed node was called, no later node is called.
pub proof fn law_fresh_identity_is_new<B>(graph: GraphStore<B>, fresh: NodeId, known: NodeId)
    requires
        graph.is_fresh(fresh),
        graph.retired().contains(known) || graph.nodes().dom().contains(known),
    ensures
        fresh != known,
        known.index == fresh.index ==> known.generation < fresh.generation,
{
}

/// Whether `after` comes from `before` by one mutation of the graph: a node
/// is spawned, a node is removed, or the nodes stay who they are.
pub open spec fn one_step<B>(before: GraphStore<B>, after: GraphStore<B>) -> bool {
    ||| exists|id: NodeId| spawned(before, after, id)
    ||| exists|id: NodeId| removed(before, after, id)
    ||| same_identities(before, after)
}

/// Whether `history` is a run of the graph: it begins with a well-formed
/// graph, and each graph comes from the one before it by one mutation.
pub open spec fn is_history<B>(history: Seq<GraphStore<B>>) -> bool {
    &&& history.len() > 0
    &&& history[0].wf()
    &&& forall|k: int|
        0 <= k < history.len() - 1 ==> one_step(#[trigger] history[k], history[k + 1])
}

/// Whether the generations at `index` last from step `from` to step `to` of
/// `history`: none of the nodes removed in between had the last generation.
pub open spec fn generations_last<B>(
    history: Seq<GraphStore<B>>,
    index: u32,
    from: int,
    to: int,
) -> bool {
    forall|k: int, other: NodeId|
        from <= k < to && other.index == index && #[trigger] removed(
            history[k],
            history[k + 1],
            other,
        ) ==> other.generation < u32::MAX
}

/// Throughout a run of the graph no retired identity is live.
pub proof fn lemma_history_keeps_retired_apart<B>(history: Seq<GraphStore<B>>, at: int)
    requires
        is_history(history),
        0 <= at < history.len(),
    ensures
        forall|id: NodeId| #[trigger]
            history[at].retired().contains(id) ==> !history[at].nodes().dom().contains(id),
    decreases at,
{
    if at == 0 {
        history[0].lemma_live_identities();
    } else {
        lemma_history_keeps_retired_apart(history, at - 1);
        assert(one_step(history[at - 1], history[at]));
    }
}

/// In every run of the graph, whatever is spawned, removed or changed, the
/// identity of a removed node is never live again: no later node is held
/// under it. This holds as long as the generations at the identity's index
/// last.
pub proof fn law_removed_identity_is_never_live_again<B>(
    history: Seq<GraphStore<B>>,
    id: NodeId,
    gone: int,
    later: int,
)
    requires
        is_history(history),
        0 <= gone < later < history.len(),
        removed(history[gone], history[gone + 1], id),
        generations_last(history, id.index, gone, later),
    ensures
        history[later].retired().contains(id),
        !history[later].nodes().dom().contains(id),
    decreases later - gone,
{
    if later > gone + 1 {
        law_removed_identity_is_never_live_again(history, id, gone, later - 1);
        let before = history[later - 1];
        let after = history[later];
        assert(one_step(before, after));
        if exists|other: NodeId| removed(before, after, other) {
            let other = choose|other: NodeId| removed(before, after, other);
            assert(other.index == id.index ==> other.generation < u32::MAX);
        }
    }
    lemma_history_keeps_retired_apart(history, later);
}

/// An identity that was retired names nothing: a port of it is not found, no
/// edge can be committed to or from it, and the controller's requests for it
/// are refused with `UnknownNode`.
pub proof fn law_stale_identity_is_refused<B, M>(graph: GraphStore<B>, id: NodeId)
    requires
        graph.wf(),
        graph.retired().contains(id),
    ensures
        !graph.nodes().dom().contains(id),
        forall|pointer: Point| #[trigger]
            effect::<B, M>(Gesture::Idle, graph.nodes(), Message::DragStart(id, pointer))
                == Effect::<B, M>::Refused(Error::UnknownNode),
        forall|drag: DragState, pointer: Point|
            drag.node == id ==> #[trigger] effect::<B, M>(
                Gesture::DraggingNode(drag),
                graph.nodes(),
                Message::DragMove(pointer),
            ) == Effect::<B, M>::Refused(Error::UnknownNode),
        forall|pending: Pending|
            pending.origin.node == id ==> #[trigger] effect::<B, M>(
                Gesture::Idle,
                graph.nodes(),
                Message::StartEdge(pending),
            ) == Effect::<B, M>::Refused(Error::UnknownNode),
        forall|port: PortIdentity|
            port.node == id ==> #[trigger] port_at(graph.nodes(), port) == Err::<Port, Error>(
                Error::UnknownNode,
            ),
        forall|output: PortIdentity, input: PortIdentity|
            output.node == id || input.node == id ==> {
                let refused = #[trigger] connect_check(graph.nodes(), output, input);
                ||| refused == Err::<Edge, Error>(Error::DirectionMismatch)
                ||| refused == Err::<Edge, Error>(Error::UnknownNode)
            },
        forall|gesture: Gesture| #[trigger]
            effect::<B, M>(gesture, graph.nodes(), Message::Remove(id))
                == Effect::<B, M>::Refused(Error::UnknownNode),
{
    graph.lemma_live_identities();
}

/// Once a node is removed no edge touches it: none of the edges that are
/// left has an end at the node, and the edges of each of the node's ports are
/// none.
pub proof fn law_removed_node_leaves_no_edge(edges: Seq<Edge>, id: NodeId, port: PortIdentity)
    requires
        port.node == id,
    ensures
        forall|i: int|
            0 <= i < edges.filter(away_from(id)).len() ==> !(#[trigger] edges.filter(
                away_from(id),
            )[i]).touches_node(id),
        edges.filter(away_from(id)).filter(at(port)) == Seq::<Edge>::empty(),
{
    let left = edges.filter(away_from(id));
    assert forall|i: int| 0 <= i < left.len() implies !(#[trigger] left[i]).touches_node(id) by {
        edges.lemma_filter_pred(away_from(id), i);
        assert(away_from(id)(left[i]));
    }
    assert forall|i: int| 0 <= i < left.len() implies !at(port)(#[trigger] left[i]) by {
        assert(!left[i].touches_node(id));
    }
    lemma_none_selected(left, at(port));
}

/// An edge is committed exactly when it runs from an output port to an input
/// port, both ports are there, and they carry the same data type. The edge
/// committed is the one asked for.
pub proof fn law_connect_succeeds_iff<B>(
    nodes: Map<NodeId, NodeWidget<B>>,
    output: PortIdentity,
    input: PortIdentity,
)
    ensures
        connect_check(nodes, output, input) is Ok <==> {
            &&& output.direction == Direction::Output
            &&& input.direction == Direction::Input
            &&& port_at(nodes, output) is Ok
            &&& port_at(nodes, input) is Ok
            &&& port_at(nodes, output)->Ok_0.data_type == port_at(nodes, input)->Ok_0.data_type
        },
        connect_check(nodes, output, input) matches Ok(edge) ==> edge == (Edge {
            from: output,
            to: input,
        }),
{
}

/// Right after an edge is committed it is the one edge that ends in its
/// input port: an edge that ended there before has given way.
pub proof fn law_reconnect_replaces(edges: Seq<Edge>, edge: Edge)
    ensures
        connected(edges, Ok(edge)).filter(into(edge.to)) == seq![edge],
{
    let rest = edges.filter(not_into(edge.to));
    assert forall|i: int| 0 <= i < rest.len() implies !into(edge.to)(#[trigger] rest[i]) by {
        edges.lemma_filter_pred(not_into(edge.to), i);
        assert(not_into(edge.to)(rest[i]));
    }
    lemma_none_selected(rest, into(edge.to));
    reveal(Seq::filter);
    assert(rest.push(edge).drop_last() =~= rest);
    assert(rest.push(edge).filter(into(edge.to)) =~= seq![edge]);
}

/// In a well-formed graph at most one edge ends in any input port.
pub proof fn law_input_fed_at_most_once<B>(graph: GraphStore<B>, input: PortIdentity)
    requires
        graph.wf(),
    ensures
        graph.edges().filter(into(input)).len() <= 1,
{
    let feeding = graph.edges().filter(into(input));
    lemma_selected_edges(graph.nodes(), graph.edges(), into(input));
    assert(inputs_fed_once(feeding));
    if feeding.len() >= 2 {
        assert(into(input)(feeding[0]));
        assert(into(input)(feeding[1]));
        assert(feeding[0].to != feeding[1].to);
    }
}

/// An edge can be removed once: after an attempt to remove it, whether it
/// was there or not, a further attempt is refused with `UnknownEdge`.
pub proof fn law_disconnect_twice_fails(edges: Seq<Edge>, edge: Edge)
    ensures
        disconnect_check(disconnected(edges, edge), edge) == Err::<(), Error>(Error::UnknownEdge),
{
    let left = disconnected(edges, edge);
    if left.contains(edge) {
        let i = choose|i: int| 0 <= i < left.len() && left[i] == edge;
        if edges.contains(edge) {
            edges.lemma_filter_pred(other_than(edge), i);
            assert(other_than(edge)(left[i]));
        }
    }
}

/// One gesture at a time: while a node is dragged or an edge is drawn, a
/// press changes neither the gesture nor the graph.
pub proof fn law_press_during_gesture_is_ignored<B, M>(
    gesture: Gesture,
    nodes: Map<NodeId, NodeWidget<B>>,
    edges: Seq<Edge>,
    retired: Set<NodeId>,
    message: Message<M>,
)
    requires
        !(gesture is Idle),
        is_press(message),
    ensures
        next_gesture(gesture, nodes, message) == gesture,
        effect(gesture, nodes, message) == Effect::<B, M>::Nothing,
        nodes_after(nodes, message, effect(gesture, nodes, message)) == nodes,
        edges_after(edges, message, effect(gesture, nodes, message)) == edges,
        retired_after(retired, message, effect(gesture, nodes, message)) == retired,
{
}

/// A refusal leaves the graph as it was: whatever event the controller
/// refuses, the nodes, the edges and the retired identities stay.
pub proof fn law_refusal_changes_nothing<B, M>(
    gesture: Gesture,
    nodes: Map<NodeId, NodeWidget<B>>,
    edges: Seq<Edge>,
    retired: Set<NodeId>,
    message: Message<M>,
)
    requires
        effect(gesture, nodes, message) is Refused,
    ensures
        nodes_after(nodes, message, effect(gesture, nodes, message)) == nodes,
        edges_after(edges, message, effect(gesture, nodes, message)) == edges,
        retired_after(retired, message, effect(gesture, nodes, message)) == retired,
{
}

/// The graph changes on three events only: a request to remove a node, a
/// move of the pointer while a node is dragged, and a release on a port
/// while an edge is drawn. Every other event leaves the graph as it was.
pub proof fn law_other_events_change_nothing<B, M>(
    gesture: Gesture,
    nodes: Map<NodeId, NodeWidget<B>>,
    edges: Seq<Edge>,
    retired: Set<NodeId>,
    message: Message<M>,
)
    requires
        !(message is Remove),
        !(message is DragMove && gesture is DraggingNode),
        !(message is CommitEdge && gesture is DrawingEdge),
    ensures
        nodes_after(nodes, message, effect(gesture, nodes, message)) == nodes,
        edges_after(edges, message, effect(gesture, nodes, message)) == edges,
        retired_after(retired, message, effect(gesture, nodes, message)) == retired,
{
}

/// Committing or cancelling an edge gesture always ends it, whether or not
/// an edge was committed.
pub proof fn law_release_ends_edge_gesture<B, M>(
    gesture: Gesture,
    nodes: Map<NodeId, NodeWidget<B>>,
    target: PortIdentity,
)
    requires
        gesture is DrawingEdge,
    ensures
        next_gesture::<B, M>(gesture, nodes, Message::CommitEdge(target)) == Gesture::Idle,
        next_gesture::<B, M>(gesture, nodes, Message::CancelEdge) == Gesture::Idle,
{
}

} // verus!
