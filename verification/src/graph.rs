//! The graph store: owns the nodes and the committed edges, and keeps the
//! graph's invariants through every mutation.

use vstd::prelude::*;
use crate::edge::Edge;
use crate::error::Error;
use crate::geometry::Point;
use crate::identity::NodeId;
use crate::node::NodeWidget;
use crate::port::{Direction, NodeKind, Port, PortIdentity};
use crate::registry::{retire, IdentityRegistry, MAX_LIVE};

verus! {

/// Selects the edges that touch no port of `node`.
pub open spec fn away_from(node: NodeId) -> spec_fn(Edge) -> bool {
    |edge: Edge| !edge.touches_node(node)
}

/// Selects the edges that do not end in `input`.
pub open spec fn not_into(input: PortIdentity) -> spec_fn(Edge) -> bool {
    |edge: Edge| edge.to != input
}

/// Selects the edges that end in `input`.
pub open spec fn into(input: PortIdentity) -> spec_fn(Edge) -> bool {
    |edge: Edge| edge.to == input
}

/// Selects the edges other than `removed`.
pub open spec fn other_than(removed: Edge) -> spec_fn(Edge) -> bool {
    |edge: Edge| edge != removed
}

/// Selects the edges that have `port` as one of their ends.
pub open spec fn at(port: PortIdentity) -> spec_fn(Edge) -> bool {
    |edge: Edge| edge.touches(port)
}

/// The edges of `edges` that `keep` accepts, in their order.
fn retained<F: Fn(&Edge) -> bool>(
    edges: &Vec<Edge>,
    keep: F,
    Ghost(selects): Ghost<spec_fn(Edge) -> bool>,
) -> (kept: Vec<Edge>)
    requires
        forall|edge: Edge| #[trigger] keep.requires((&edge,)),
        forall|edge: Edge, accepted: bool| #[trigger]
            keep.ensures((&edge,), accepted) ==> accepted == selects(edge),
    ensures
        kept@ == edges@.filter(selects),
{
    let mut kept: Vec<Edge> = Vec::new();
    let mut i: usize = 0;
    proof {
        reveal(Seq::filter);
    }
    while i < edges.len()
        invariant
            i <= edges.len(),
            kept@ == edges@.take(i as int).filter(selects),
            forall|edge: Edge| #[trigger] keep.requires((&edge,)),
            forall|edge: Edge, accepted: bool| #[trigger]
                keep.ensures((&edge,), accepted) ==> accepted == selects(edge),
        decreases edges.len() - i,
    {
        let edge: Edge = edges[i];
        let accepted: bool = keep(&edge);
        proof {
            reveal(Seq::filter);
            assert(edges@.take(i + 1).drop_last() =~= edges@.take(i as int));
        }
        if accepted {
            kept.push(edge);
        }
        i = i + 1;
    }
    assert(edges@.take(i as int) =~= edges@);
    kept
}

/// The ports of `node` on the side `direction`.
pub open spec fn ports_on<B>(node: NodeWidget<B>, direction: Direction) -> Seq<Port> {
    match direction {
        Direction::Input => node.inputs@,
        Direction::Output => node.outputs@,
    }
}

/// The port that `port` locates among `nodes`, or why there is none:
/// `UnknownNode` if its node is not there, `UnknownPort` if the node has no
/// such position on that side.
pub open spec fn port_at<B>(
    nodes: Map<NodeId, NodeWidget<B>>,
    port: PortIdentity,
) -> Result<Port, Error> {
    if !nodes.dom().contains(port.node) {
        Err(Error::UnknownNode)
    } else if port.port.0 >= ports_on(nodes[port.node], port.direction).len() {
        Err(Error::UnknownPort)
    } else {
        Ok(ports_on(nodes[port.node], port.direction)[port.port.0 as int])
    }
}

/// Whether an edge from `output` to `input` may be committed among `nodes`,
/// and the refusal if not. The tests come in this order: the edge runs from
/// an output to an input, else `DirectionMismatch`; both nodes are there,
/// else `UnknownNode`; both ports are there, else `UnknownPort`; the two
/// ports carry the same data type, else `TypeMismatch`.
pub open spec fn connect_check<B>(
    nodes: Map<NodeId, NodeWidget<B>>,
    output: PortIdentity,
    input: PortIdentity,
) -> Result<Edge, Error> {
    if output.direction != Direction::Output || input.direction != Direction::Input {
        Err(Error::DirectionMismatch)
    } else if !nodes.dom().contains(output.node) || !nodes.dom().contains(input.node) {
        Err(Error::UnknownNode)
    } else if port_at(nodes, output) is Err || port_at(nodes, input) is Err {
        Err(Error::UnknownPort)
    } else if port_at(nodes, output)->Ok_0.data_type != port_at(nodes, input)->Ok_0.data_type {
        Err(Error::TypeMismatch)
    } else {
        Ok(Edge { from: output, to: input })
    }
}

/// The edges after an attempt to connect that ended in `committed`: a
/// committed edge stands last, and whatever ended in its input before is
/// gone; a refusal changes nothing.
pub open spec fn connected(edges: Seq<Edge>, committed: Result<Edge, Error>) -> Seq<Edge> {
    match committed {
        Ok(edge) => edges.filter(not_into(edge.to)).push(edge),
        Err(_) => edges,
    }
}

/// Whether `edge` can be removed from `edges`: only an edge that is there
/// can.
pub open spec fn disconnect_check(edges: Seq<Edge>, edge: Edge) -> Result<(), Error> {
    if edges.contains(edge) {
        Ok(())
    } else {
        Err(Error::UnknownEdge)
    }
}

/// The edges after an attempt to remove `edge` from `edges`.
pub open spec fn disconnected(edges: Seq<Edge>, edge: Edge) -> Seq<Edge> {
    if edges.contains(edge) {
        edges.filter(other_than(edge))
    } else {
        edges
    }
}

/// Whether every edge of `edges` may stand among `nodes`.
pub open spec fn edges_valid<B>(nodes: Map<NodeId, NodeWidget<B>>, edges: Seq<Edge>) -> bool {
    forall|i: int|
        0 <= i < edges.len() ==> connect_check(nodes, (#[trigger] edges[i]).from, edges[i].to)
            is Ok
}

/// Whether no input port is the end of two edges of `edges`.
pub open spec fn inputs_fed_once(edges: Seq<Edge>) -> bool {
    forall|i: int, j: int|
        0 <= i < j < edges.len() ==> (#[trigger] edges[i]).to != (#[trigger] edges[j]).to
}

/// Whether `after` has the nodes of `before` with the same ports, and
/// perhaps more nodes.
pub open spec fn keeps_ports<B>(
    before: Map<NodeId, NodeWidget<B>>,
    after: Map<NodeId, NodeWidget<B>>,
) -> bool {
    forall|id: NodeId| #[trigger]
        before.dom().contains(id) ==> {
            &&& after.dom().contains(id)
            &&& after[id].inputs@ == before[id].inputs@
            &&& after[id].outputs@ == before[id].outputs@
        }
}

/// Edges that may stand among some nodes may stand among those nodes moved,
/// and among more nodes.
pub proof fn lemma_edges_stay_valid<B>(
    before: Map<NodeId, NodeWidget<B>>,
    after: Map<NodeId, NodeWidget<B>>,
    edges: Seq<Edge>,
)
    requires
        edges_valid(before, edges),
        keeps_ports(before, after),
    ensures
        edges_valid(after, edges),
{
    assert forall|i: int| 0 <= i < edges.len() implies connect_check(
        after,
        (#[trigger] edges[i]).from,
        edges[i].to,
    ) is Ok by {
        let edge = edges[i];
        assert(connect_check(before, edge.from, edge.to) is Ok);
        assert(before.dom().contains(edge.from.node));
        assert(before.dom().contains(edge.to.node));
    }
}

/// What selecting from a sequence of edges keeps true of it: each selected
/// edge is one of the sequence and meets the selection, the selected edges
/// may stand wherever the sequence may, and no input port is fed twice if
/// none was.
pub proof fn lemma_selected_edges<B>(
    nodes: Map<NodeId, NodeWidget<B>>,
    edges: Seq<Edge>,
    selects: spec_fn(Edge) -> bool,
)
    ensures
        forall|i: int|
            0 <= i < edges.filter(selects).len() ==> selects(#[trigger] edges.filter(selects)[i])
                && edges.contains(edges.filter(selects)[i]),
        edges_valid(nodes, edges) ==> edges_valid(nodes, edges.filter(selects)),
        inputs_fed_once(edges) ==> inputs_fed_once(edges.filter(selects)),
    decreases edges.len(),
{
    let kept = edges.filter(selects);
    assert forall|i: int| 0 <= i < kept.len() implies selects(#[trigger] kept[i])
        && edges.contains(kept[i]) by {
        assert(kept.contains(kept[i]));
        edges.lemma_filter_contains_rev(selects, kept[i]);
    }
    if edges_valid(nodes, edges) {
        assert forall|i: int| 0 <= i < kept.len() implies connect_check(
            nodes,
            (#[trigger] kept[i]).from,
            kept[i].to,
        ) is Ok by {
            assert(edges.contains(kept[i]));
            let j = choose|j: int| 0 <= j < edges.len() && edges[j] == kept[i];
            assert(connect_check(nodes, edges[j].from, edges[j].to) is Ok);
        }
    }
    if inputs_fed_once(edges) {
        reveal(Seq::filter);
        if edges.len() > 0 {
            let rest = edges.drop_last();
            lemma_selected_edges(nodes, rest, selects);
            assert(inputs_fed_once(rest));
            let kept_rest = rest.filter(selects);
            assert forall|i: int, j: int| 0 <= i < j < kept.len() implies (#[trigger] kept[i]).to
                != (#[trigger] kept[j]).to by {
                if j < kept_rest.len() {
                    assert(kept[i] == kept_rest[i]);
                    assert(kept[j] == kept_rest[j]);
                } else {
                    assert(kept[j] == edges.last());
                    assert(kept[i] == kept_rest[i]);
                    assert(rest.contains(kept_rest[i]));
                    let k = choose|k: int| 0 <= k < rest.len() && rest[k] == kept_rest[i];
                    assert(edges[k] == rest[k]);
                }
            }
        }
    }
}

/// Whether `after` is `before` with one node more, spawned under `id`.
pub open spec fn spawned<B>(before: GraphStore<B>, after: GraphStore<B>, id: NodeId) -> bool {
    &&& before.is_fresh(id)
    &&& after.nodes().dom() == before.nodes().dom().insert(id)
    &&& after.retired() == before.retired()
}

/// Whether `after` is `before` with the node `id` removed.
pub open spec fn removed<B>(before: GraphStore<B>, after: GraphStore<B>, id: NodeId) -> bool {
    &&& before.nodes().dom().contains(id)
    &&& after.nodes().dom() == before.nodes().dom().remove(id)
    &&& after.retired() == retire(before.retired(), id)
}

/// Whether `after` has the same nodes as `before`, live and retired: what
/// every mutation but spawning and removing keeps.
pub open spec fn same_identities<B>(before: GraphStore<B>, after: GraphStore<B>) -> bool {
    &&& after.nodes().dom() == before.nodes().dom()
    &&& after.retired() == before.retired()
}

/// Owns the nodes of a graph and the edges committed between their ports.
pub struct GraphStore<B> {
    nodes: IdentityRegistry<NodeWidget<B>>,
    edges: Vec<Edge>,
}

impl<B> GraphStore<B> {
    /// The live nodes, each under its identity.
    pub closed spec fn nodes(&self) -> Map<NodeId, NodeWidget<B>> {
        self.nodes@
    }

    /// The committed edges, in the order in which they were committed.
    pub closed spec fn edges(&self) -> Seq<Edge> {
        self.edges@
    }

    /// The identities of removed nodes that will never be issued again.
    pub closed spec fn retired(&self) -> Set<NodeId> {
        self.nodes.retired()
    }

    /// Whether the node table itself is in order.
    pub closed spec fn nodes_wf(&self) -> bool {
        self.nodes.wf()
    }

    /// The graph's invariant: every node is held under its own identity,
    /// every edge runs from an output port of a live node to an input port of
    /// a live node of the same data type, and no input port is fed by two
    /// edges. Every constructor establishes it and every method keeps it.
    pub open spec fn wf(&self) -> bool {
        &&& self.nodes_wf()
        &&& forall|id: NodeId| #[trigger]
            self.nodes().dom().contains(id) ==> self.nodes()[id].id == id
        &&& edges_valid(self.nodes(), self.edges())
        &&& inputs_fed_once(self.edges())
    }

    /// Whether `id` is fresh for this graph: neither live nor retired, and of
    /// a later generation than every identity the graph knows at its index.
    pub open spec fn is_fresh(&self, id: NodeId) -> bool {
        &&& id.is_odd()
        &&& !self.nodes().dom().contains(id)
        &&& !self.retired().contains(id)
        &&& forall|other: NodeId| #[trigger]
            self.nodes().dom().contains(other) && other.index == id.index ==> other.generation
                < id.generation
        &&& forall|other: NodeId| #[trigger]
            self.retired().contains(other) && other.index == id.index ==> other.generation
                < id.generation
    }

    /// Whether `after` is this graph with another node under `id`, one that
    /// has the same identity and the same ports.
    spec fn holds_node_instead(&self, after: Self, id: NodeId) -> bool {
        &&& self.wf()
        &&& self.nodes().dom().contains(id)
        &&& after.nodes_wf()
        &&& after.edges == self.edges
        &&& after.nodes() == self.nodes().insert(id, after.nodes()[id])
        &&& after.nodes()[id].id == id
        &&& after.nodes()[id].inputs@ == self.nodes()[id].inputs@
        &&& after.nodes()[id].outputs@ == self.nodes()[id].outputs@
    }

    /// In a well-formed graph no retired identity is live, every live
    /// identity has an odd generation, and the live nodes are finitely many.
    pub proof fn lemma_live_identities(&self)
        requires
            self.wf(),
        ensures
            self.nodes().dom().finite(),
            forall|id: NodeId| #[trigger] self.nodes().dom().contains(id) ==> id.is_odd(),
            forall|id: NodeId| #[trigger]
                self.retired().contains(id) ==> !self.nodes().dom().contains(id),
    {
        self.nodes.lemma_live_identities();
    }

    /// A graph without nodes or edges.
    pub fn new() -> (graph: Self)
        ensures
            graph.wf(),
            graph.nodes() == Map::<NodeId, NodeWidget<B>>::empty(),
            graph.edges() == Seq::<Edge>::empty(),
            graph.retired() == Set::<NodeId>::empty(),
    {
        GraphStore { nodes: IdentityRegistry::new(), edges: Vec::new() }
    }

    /// How many nodes the graph holds.
    pub fn len(&self) -> (n: usize)
        requires
            self.wf(),
        ensures
            n == self.nodes().dom().len(),
    {
        self.nodes.len()
    }

    /// The identities of the graph's nodes, each once, in no particular
    /// order.
    pub fn node_ids(&self) -> (ids: Vec<NodeId>)
        requires
            self.wf(),
        ensures
            ids@.no_duplicates(),
            ids@.len() == self.nodes().dom().len(),
            forall|id: NodeId| ids@.contains(id) <==> self.nodes().dom().contains(id),
    {
        self.nodes.ids()
    }

    /// Whether `id` names a node of the graph.
    pub fn contains(&self, id: NodeId) -> (found: bool)
        requires
            self.wf(),
        ensures
            found == self.nodes().dom().contains(id),
    {
        self.nodes.contains(id)
    }

    /// The node that `id` names.
    pub fn node(&self, id: NodeId) -> (found: Result<&NodeWidget<B>, Error>)
        requires
            self.wf(),
        ensures
            self.nodes().dom().contains(id) ==> found == Ok::<&NodeWidget<B>, Error>(
                &self.nodes()[id],
            ),
            !self.nodes().dom().contains(id) ==> found == Err::<&NodeWidget<B>, Error>(
                Error::UnknownNode,
            ),
    {
        match self.nodes.resolve(id) {
            Ok(node) => Ok(node),
            Err(_) => Err(Error::UnknownNode),
        }
    }

    /// The port that `port` locates.
    pub fn port(&self, port: PortIdentity) -> (found: Result<&Port, Error>)
        requires
            self.wf(),
        ensures
            port_at(self.nodes(), port) matches Ok(expected) ==> found == Ok::<&Port, Error>(
                &expected,
            ),
            port_at(self.nodes(), port) matches Err(error) ==> found == Err::<&Port, Error>(error),
    {
        let node = match self.nodes.resolve(port.node) {
            Ok(node) => node,
            Err(_) => {
                return Err(Error::UnknownNode);
            },
        };
        let ports = match port.direction {
            Direction::Input => &node.inputs,
            Direction::Output => &node.outputs,
        };
        if port.port.0 < ports.len() {
            Ok(&ports[port.port.0])
        } else {
            Err(Error::UnknownPort)
        }
    }

    /// The behavior object of the node that `id` names, to use and change in
    /// place. The graph does not look inside it: whatever is left there is
    /// the node's behavior afterwards, and nothing else about the graph
    /// changes.
    pub fn behavior_mut(&mut self, id: NodeId) -> (found: Result<&mut B, Error>)
        requires
            old(self).wf(),
        ensures
            final(self).wf(),
            same_identities(*old(self), *final(self)),
            final(self).edges() == old(self).edges(),
            found is Ok <==> old(self).nodes().dom().contains(id),
            found matches Ok(behavior) ==> {
                &&& *behavior == old(self).nodes()[id].node.behavior
                &&& final(self).nodes() == old(self).nodes().insert(
                    id,
                    old(self).nodes()[id].with_behavior(*final(behavior)),
                )
            },
            found matches Err(error) ==> {
                &&& error == Error::UnknownNode
                &&& final(self).nodes() == old(self).nodes()
            },
    {
        proof {
            let before = *self;
            assert forall|after: Self|
                before.holds_node_instead(after, id) implies #[trigger] after.wf()
                && after.nodes().dom() == before.nodes().dom() by {
                lemma_edges_stay_valid(before.nodes(), after.nodes(), before.edges());
                assert(after.nodes().dom() =~= before.nodes().dom());
            }
        }
        match self.nodes.resolve_mut(id) {
            Ok(node) => Ok(&mut node.node.behavior),
            Err(_) => Err(Error::UnknownNode),
        }
    }

    /// Adds a node of kind `kind` at `position` and returns its identity,
    /// which no node of this graph has had before. The node's ports are those
    /// that the kind's descriptor declares.
    pub fn spawn(&mut self, position: Point, kind: NodeKind<B>) -> (id: NodeId)
        requires
            old(self).wf(),
            old(self).nodes().dom().len() < MAX_LIVE,
        ensures
            final(self).wf(),
            spawned(*old(self), *final(self), id),
            final(self).nodes()[id].is_new(id, position, kind),
            final(self).nodes() == old(self).nodes().insert(id, final(self).nodes()[id]),
            final(self).edges() == old(self).edges(),
            final(self).retired() == old(self).retired(),
    {
        let make = |id: NodeId| -> (widget: NodeWidget<B>)
            ensures
                widget.is_new(id, position, kind),
            { NodeWidget::new(id, position, kind) };
        let id = self.nodes.allocate_with(make);
        proof {
            lemma_edges_stay_valid(old(self).nodes(), self.nodes(), self.edges());
        }
        id
    }

    /// Moves the node that `id` names to `position`.
    pub fn move_node(&mut self, id: NodeId, position: Point) -> (moved: Result<(), Error>)
        requires
            old(self).wf(),
        ensures
            final(self).wf(),
            same_identities(*old(self), *final(self)),
            final(self).edges() == old(self).edges(),
            old(self).nodes().dom().contains(id) ==> {
                &&& moved == Ok::<(), Error>(())
                &&& final(self).nodes() == old(self).nodes().insert(
                    id,
                    old(self).nodes()[id].moved_to(position),
                )
            },
            !old(self).nodes().dom().contains(id) ==> {
                &&& moved == Err::<(), Error>(Error::UnknownNode)
                &&& final(self).nodes() == old(self).nodes()
            },
    {
        let moved = match self.nodes.resolve_mut(id) {
            Ok(node) => {
                node.position = position;
                Ok(())
            },
            Err(_) => Err(Error::UnknownNode),
        };
        proof {
            if moved is Ok {
                assert(old(self).holds_node_instead(*self, id));
                lemma_edges_stay_valid(old(self).nodes(), self.nodes(), self.edges());
                assert(self.nodes().dom() =~= old(self).nodes().dom());
            }
        }
        moved
    }

    /// Removes the node that `id` names, together with every edge that
    /// touches one of its ports, and hands back its kind. The edges are gone
    /// before the kind is handed back.
    pub fn remove_node(&mut self, id: NodeId) -> (taken: Result<NodeKind<B>, Error>)
        requires
            old(self).wf(),
        ensures
            final(self).wf(),
            old(self).nodes().dom().contains(id) ==> {
                &&& removed(*old(self), *final(self), id)
                &&& taken == Ok::<NodeKind<B>, Error>(old(self).nodes()[id].node)
                &&& final(self).nodes() == old(self).nodes().remove(id)
                &&& final(self).edges() == old(self).edges().filter(away_from(id))
                &&& final(self).retired() == retire(old(self).retired(), id)
                &&& forall|i: int|
                    0 <= i < final(self).edges().len() ==> !(#[trigger] final(self).edges()[i])
                        .touches_node(id)
            },
            !old(self).nodes().dom().contains(id) ==> {
                &&& same_identities(*old(self), *final(self))
                &&& taken == Err::<NodeKind<B>, Error>(Error::UnknownNode)
                &&& final(self).nodes() == old(self).nodes()
                &&& final(self).edges() == old(self).edges()
            },
    {
        let node = match self.nodes.deallocate(id) {
            Ok(node) => node,
            Err(_) => {
                return Err(Error::UnknownNode);
            },
        };
        let keep = |edge: &Edge| -> (keep: bool)
            ensures
                keep != edge.touches_node(id),
            {
                let touching: bool = edge.is_at_node(id);
                !touching
            };
        let kept = retained(&self.edges, keep, Ghost(away_from(id)));
        self.edges = kept;
        proof {
            let before = old(self).edges();
            lemma_selected_edges(old(self).nodes(), before, away_from(id));
            assert forall|i: int| 0 <= i < self.edges().len() implies connect_check(
                self.nodes(),
                (#[trigger] self.edges()[i]).from,
                self.edges()[i].to,
            ) is Ok by {
                let edge = self.edges()[i];
                assert(away_from(id)(edge));
                assert(connect_check(old(self).nodes(), edge.from, edge.to) is Ok);
            }
        }
        Ok(node.node)
    }

    /// Commits an edge from `output` to `input`. An edge that already ends in
    /// `input` gives way to the new one: connecting to an occupied input is a
    /// reconnection, not an error.
    pub fn connect(
        &mut self,
        output: PortIdentity,
        input: PortIdentity,
    ) -> (committed: Result<Edge, Error>)
        requires
            old(self).wf(),
        ensures
            final(self).wf(),
            same_identities(*old(self), *final(self)),
            final(self).nodes() == old(self).nodes(),
            committed == connect_check(old(self).nodes(), output, input),
            final(self).edges() == connected(old(self).edges(), committed),
    {
        if output.direction != Direction::Output || input.direction != Direction::Input {
            return Err(Error::DirectionMismatch);
        }
        let source = match self.nodes.resolve(output.node) {
            Ok(node) => node,
            Err(_) => {
                return Err(Error::UnknownNode);
            },
        };
        let target = match self.nodes.resolve(input.node) {
            Ok(node) => node,
            Err(_) => {
                return Err(Error::UnknownNode);
            },
        };
        if output.port.0 >= source.outputs.len() || input.port.0 >= target.inputs.len() {
            return Err(Error::UnknownPort);
        }
        if source.outputs[output.port.0].data_type != target.inputs[input.port.0].data_type {
            return Err(Error::TypeMismatch);
        }
        let edge = Edge { from: output, to: input };
        let keep = |edge: &Edge| -> (keep: bool)
            ensures
                keep == (edge.to != input),
            { edge.to != input };
        let mut kept = retained(&self.edges, keep, Ghost(not_into(input)));
        kept.push(edge);
        self.edges = kept;
        proof {
            let before = old(self).edges();
            let rest = before.filter(not_into(input));
            lemma_selected_edges(self.nodes(), before, not_into(input));
            assert forall|i: int| 0 <= i < self.edges().len() implies connect_check(
                self.nodes(),
                (#[trigger] self.edges()[i]).from,
                self.edges()[i].to,
            ) is Ok by {
                if i < rest.len() {
                    assert(self.edges()[i] == rest[i]);
                }
            }
            let after = self.edges();
            assert forall|i: int, j: int| 0 <= i < j < after.len() implies (#[trigger] after[i]).to
                != (#[trigger] after[j]).to by {
                assert(self.edges()[i] == rest[i]);
                assert(not_into(input)(rest[i]));
                if j < rest.len() {
                    assert(self.edges()[j] == rest[j]);
                }
            }
        }
        Ok(edge)
    }

    /// Whether the graph holds `edge`.
    pub fn has_edge(&self, edge: Edge) -> (found: bool)
        ensures
            found == self.edges().contains(edge),
    {
        let mut i: usize = 0;
        while i < self.edges.len()
            invariant
                i <= self.edges@.len(),
                forall|j: int| 0 <= j < i ==> self.edges@[j] != edge,
            decreases self.edges@.len() - i,
        {
            if self.edges[i] == edge {
                return true;
            }
            i = i + 1;
        }
        false
    }

    /// Removes `edge` from the graph. An edge that the graph does not hold,
    /// one that was removed before too, is refused.
    pub fn disconnect(&mut self, edge: Edge) -> (done: Result<(), Error>)
        requires
            old(self).wf(),
        ensures
            final(self).wf(),
            same_identities(*old(self), *final(self)),
            final(self).nodes() == old(self).nodes(),
            !final(self).edges().contains(edge),
            done == disconnect_check(old(self).edges(), edge),
            final(self).edges() == disconnected(old(self).edges(), edge),
    {
        if !self.has_edge(edge) {
            return Err(Error::UnknownEdge);
        }
        let keep = |other: &Edge| -> (keep: bool)
            ensures
                keep == (*other != edge),
            { *other != edge };
        let kept = retained(&self.edges, keep, Ghost(other_than(edge)));
        self.edges = kept;
        proof {
            lemma_selected_edges(self.nodes(), old(self).edges(), other_than(edge));
            if self.edges().contains(edge) {
                let i = choose|i: int| 0 <= i < self.edges().len() && self.edges()[i] == edge;
                assert(other_than(edge)(self.edges()[i]));
            }
        }
        Ok(())
    }

    /// The edges that have `port` as one of their ends, in the order in which
    /// they were committed; none if no edge touches the port.
    pub fn edges_of(&self, port: PortIdentity) -> (touching: Vec<Edge>)
        ensures
            touching@ == self.edges().filter(at(port)),
    {
        let keep = |edge: &Edge| -> (keep: bool)
            ensures
                keep == edge.touches(port),
            { edge.is_at(port) };
        retained(&self.edges, keep, Ghost(at(port)))
    }

    /// The committed edges, in the order in which they were committed.
    pub fn all_edges(&self) -> (edges: Vec<Edge>)
        ensures
            edges@ == self.edges(),
    {
        let mut edges: Vec<Edge> = Vec::new();
        let mut i: usize = 0;
        while i < self.edges.len()
            invariant
                i <= self.edges@.len(),
                edges@ == self.edges@.take(i as int),
            decreases self.edges@.len() - i,
        {
            edges.push(self.edges[i]);
            i = i + 1;
            assert(edges@ =~= self.edges@.take(i as int));
        }
        assert(self.edges@.take(i as int) =~= self.edges@);
        edges
    }
}

} // verus!
