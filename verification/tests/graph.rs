use node_graph::{
    Descriptor, Edge, Error, GraphStore, NodeId, NodeKind, Point, PortId, PortIdentity, TypeTag,
};

const NUMBER: TypeTag = TypeTag(1);
const STRING: TypeTag = TypeTag(2);

fn kind(label: &str, inputs: &[TypeTag], outputs: &[TypeTag]) -> NodeKind<String> {
    let declare = |tags: &[TypeTag], prefix: &str| {
        tags.iter().enumerate().map(|(i, tag)| (format!("{}{}", prefix, i), *tag)).collect()
    };
    NodeKind::new(
        Descriptor {
            label: label.to_string(),
            inputs: declare(inputs, "in"),
            outputs: declare(outputs, "out"),
            width: 100,
        },
        format!("behavior of {}", label),
    )
}

fn source(label: &str) -> NodeKind<String> {
    kind(label, &[], &[NUMBER])
}

fn sink(label: &str, tag: TypeTag) -> NodeKind<String> {
    kind(label, &[tag], &[])
}

fn out(node: NodeId, port: usize) -> PortIdentity {
    PortIdentity::output(node, PortId(port))
}

fn inp(node: NodeId, port: usize) -> PortIdentity {
    PortIdentity::input(node, PortId(port))
}

#[test]
fn a_new_graph_is_empty() {
    let graph: GraphStore<String> = GraphStore::new();
    assert_eq!(graph.len(), 0);
    assert!(graph.node_ids().is_empty());
    assert!(graph.all_edges().is_empty());
}

#[test]
fn spawn_makes_a_node_with_its_kinds_ports() {
    let mut graph = GraphStore::new();
    let id = graph.spawn(Point::new(3, 4), kind("mix", &[NUMBER, STRING], &[STRING]));
    assert_eq!(graph.len(), 1);
    assert!(graph.contains(id));
    let node = graph.node(id).unwrap();
    assert_eq!(node.id, id);
    assert_eq!(node.position, Point { x: 3, y: 4 });
    assert_eq!(node.label(), "mix");
    assert_eq!(node.inputs.len(), 2);
    assert_eq!(node.inputs[0].name, "in0");
    assert_eq!(node.inputs[1].data_type, STRING);
    assert_eq!(node.outputs.len(), 1);
    assert_eq!(node.node.behavior, "behavior of mix");
}

#[test]
fn spawned_nodes_have_distinct_identities() {
    let mut graph = GraphStore::new();
    let ids: Vec<NodeId> = (0..20).map(|n| graph.spawn(Point::new(n, n), source("s"))).collect();
    for (i, a) in ids.iter().enumerate() {
        for b in &ids[i + 1..] {
            assert_ne!(a, b);
        }
        assert_eq!(graph.node(*a).unwrap().id, *a);
    }
    let mut listed = graph.node_ids();
    listed.sort_by_key(|id| id.index);
    let mut expected = ids.clone();
    expected.sort_by_key(|id| id.index);
    assert_eq!(listed, expected);
}

#[test]
fn port_finds_a_port_or_says_what_is_missing() {
    let mut graph = GraphStore::new();
    let a = graph.spawn(Point::new(0, 0), kind("a", &[STRING], &[NUMBER, STRING]));
    assert_eq!(graph.port(out(a, 1)).unwrap().data_type, STRING);
    assert_eq!(graph.port(out(a, 1)).unwrap().name, "out1");
    assert_eq!(graph.port(inp(a, 0)).unwrap().name, "in0");
    assert_eq!(graph.port(inp(a, 1)), Err(Error::UnknownPort));
    assert_eq!(graph.port(out(a, 2)), Err(Error::UnknownPort));
    let nobody = NodeId { index: a.index + 1, generation: 1 };
    assert_eq!(graph.port(out(nobody, 0)), Err(Error::UnknownNode));
}

#[test]
fn move_node_overwrites_the_position() {
    let mut graph = GraphStore::new();
    let a = graph.spawn(Point::new(0, 0), source("a"));
    let b = graph.spawn(Point::new(100, 0), sink("b", NUMBER));
    assert_eq!(graph.move_node(a, Point::new(-40, 25)), Ok(()));
    assert_eq!(graph.node(a).unwrap().position, Point { x: -40, y: 25 });
    assert_eq!(graph.node(b).unwrap().position, Point { x: 100, y: 0 });
    assert_eq!(graph.node(a).unwrap().outputs.len(), 1);
}

#[test]
fn move_node_of_an_unknown_node_fails() {
    let mut graph = GraphStore::new();
    let a = graph.spawn(Point::new(0, 0), source("a"));
    assert!(graph.remove_node(a).is_ok());
    assert_eq!(graph.move_node(a, Point::new(1, 1)), Err(Error::UnknownNode));
    let never = NodeId { index: 77, generation: 1 };
    assert_eq!(graph.move_node(never, Point::new(1, 1)), Err(Error::UnknownNode));
}

#[test]
fn connect_commits_an_edge() {
    let mut graph = GraphStore::new();
    let a = graph.spawn(Point::new(0, 0), source("a"));
    let b = graph.spawn(Point::new(100, 0), sink("b", NUMBER));
    let edge = graph.connect(out(a, 0), inp(b, 0));
    assert_eq!(edge, Ok(Edge { from: out(a, 0), to: inp(b, 0) }));
    assert_eq!(graph.all_edges(), vec![Edge { from: out(a, 0), to: inp(b, 0) }]);
    assert!(graph.has_edge(Edge { from: out(a, 0), to: inp(b, 0) }));
}

#[test]
fn connect_refuses_two_outputs_or_two_inputs() {
    let mut graph = GraphStore::new();
    let a = graph.spawn(Point::new(0, 0), kind("a", &[NUMBER], &[NUMBER]));
    let b = graph.spawn(Point::new(100, 0), kind("b", &[NUMBER], &[NUMBER]));
    assert_eq!(graph.connect(out(a, 0), out(b, 0)), Err(Error::DirectionMismatch));
    assert_eq!(graph.connect(inp(a, 0), inp(b, 0)), Err(Error::DirectionMismatch));
    assert_eq!(graph.connect(inp(b, 0), out(a, 0)), Err(Error::DirectionMismatch));
    assert!(graph.all_edges().is_empty());
}

#[test]
fn connect_refuses_different_types() {
    let mut graph = GraphStore::new();
    let a = graph.spawn(Point::new(0, 0), source("a"));
    let b = graph.spawn(Point::new(100, 0), sink("b", STRING));
    assert_eq!(graph.connect(out(a, 0), inp(b, 0)), Err(Error::TypeMismatch));
    assert!(graph.all_edges().is_empty());
}

#[test]
fn connect_refuses_unknown_nodes_and_ports() {
    let mut graph = GraphStore::new();
    let a = graph.spawn(Point::new(0, 0), source("a"));
    let b = graph.spawn(Point::new(100, 0), sink("b", NUMBER));
    let gone = graph.spawn(Point::new(0, 0), source("gone"));
    assert!(graph.remove_node(gone).is_ok());
    assert_eq!(graph.connect(out(gone, 0), inp(b, 0)), Err(Error::UnknownNode));
    assert_eq!(graph.connect(out(a, 0), inp(gone, 0)), Err(Error::UnknownNode));
    assert_eq!(graph.connect(out(a, 1), inp(b, 0)), Err(Error::UnknownPort));
    assert_eq!(graph.connect(out(a, 0), inp(b, 5)), Err(Error::UnknownPort));
    assert!(graph.all_edges().is_empty());
}

#[test]
fn connect_tests_direction_before_anything_else() {
    let mut graph: GraphStore<String> = GraphStore::new();
    let nobody = NodeId { index: 9, generation: 1 };
    assert_eq!(graph.connect(inp(nobody, 0), out(nobody, 0)), Err(Error::DirectionMismatch));
    assert_eq!(graph.connect(out(nobody, 0), inp(nobody, 0)), Err(Error::UnknownNode));
}

#[test]
fn connect_to_an_occupied_input_replaces_the_edge() {
    let mut graph = GraphStore::new();
    let a = graph.spawn(Point::new(0, 0), source("a"));
    let b = graph.spawn(Point::new(100, 0), sink("b", NUMBER));
    let c = graph.spawn(Point::new(0, 100), source("c"));
    assert!(graph.connect(out(a, 0), inp(b, 0)).is_ok());
    assert_eq!(graph.connect(out(c, 0), inp(b, 0)), Ok(Edge { from: out(c, 0), to: inp(b, 0) }));
    assert_eq!(graph.edges_of(inp(b, 0)), vec![Edge { from: out(c, 0), to: inp(b, 0) }]);
    assert!(!graph.has_edge(Edge { from: out(a, 0), to: inp(b, 0) }));
    assert_eq!(graph.all_edges().len(), 1);
}

#[test]
fn connecting_the_same_edge_again_keeps_one() {
    let mut graph = GraphStore::new();
    let a = graph.spawn(Point::new(0, 0), source("a"));
    let b = graph.spawn(Point::new(100, 0), sink("b", NUMBER));
    assert!(graph.connect(out(a, 0), inp(b, 0)).is_ok());
    assert!(graph.connect(out(a, 0), inp(b, 0)).is_ok());
    assert_eq!(graph.all_edges(), vec![Edge { from: out(a, 0), to: inp(b, 0) }]);
}

#[test]
fn an_output_may_feed_several_inputs() {
    let mut graph = GraphStore::new();
    let a = graph.spawn(Point::new(0, 0), source("a"));
    let b = graph.spawn(Point::new(100, 0), kind("b", &[NUMBER, NUMBER], &[]));
    let c = graph.spawn(Point::new(100, 100), sink("c", NUMBER));
    assert!(graph.connect(out(a, 0), inp(b, 0)).is_ok());
    assert!(graph.connect(out(a, 0), inp(b, 1)).is_ok());
    assert!(graph.connect(out(a, 0), inp(c, 0)).is_ok());
    assert_eq!(
        graph.edges_of(out(a, 0)),
        vec![
            Edge { from: out(a, 0), to: inp(b, 0) },
            Edge { from: out(a, 0), to: inp(b, 1) },
            Edge { from: out(a, 0), to: inp(c, 0) },
        ]
    );
    assert_eq!(graph.edges_of(inp(b, 1)), vec![Edge { from: out(a, 0), to: inp(b, 1) }]);
}

#[test]
fn every_input_has_at_most_one_edge_after_many_connects() {
    let mut graph = GraphStore::new();
    let sources: Vec<NodeId> = (0..4).map(|n| graph.spawn(Point::new(n, 0), source("s"))).collect();
    let b = graph.spawn(Point::new(100, 0), kind("b", &[NUMBER, NUMBER], &[]));
    for round in 0..3 {
        for (n, s) in sources.iter().enumerate() {
            assert!(graph.connect(out(*s, 0), inp(b, (n + round) % 2)).is_ok());
            assert!(graph.edges_of(inp(b, 0)).len() <= 1);
            assert!(graph.edges_of(inp(b, 1)).len() <= 1);
        }
    }
    assert_eq!(graph.all_edges().len(), 2);
}

#[test]
fn edges_of_a_port_without_edges_is_empty() {
    let mut graph = GraphStore::new();
    let a = graph.spawn(Point::new(0, 0), source("a"));
    assert!(graph.edges_of(out(a, 0)).is_empty());
    assert!(graph.edges_of(inp(a, 3)).is_empty());
}

#[test]
fn disconnect_removes_the_edge() {
    let mut graph = GraphStore::new();
    let a = graph.spawn(Point::new(0, 0), source("a"));
    let b = graph.spawn(Point::new(100, 0), kind("b", &[NUMBER, NUMBER], &[]));
    let first = graph.connect(out(a, 0), inp(b, 0)).unwrap();
    let second = graph.connect(out(a, 0), inp(b, 1)).unwrap();
    assert_eq!(graph.disconnect(first), Ok(()));
    assert_eq!(graph.all_edges(), vec![second]);
}

#[test]
fn disconnect_twice_fails_with_unknown_edge() {
    let mut graph = GraphStore::new();
    let a = graph.spawn(Point::new(0, 0), source("a"));
    let b = graph.spawn(Point::new(100, 0), sink("b", NUMBER));
    let edge = graph.connect(out(a, 0), inp(b, 0)).unwrap();
    assert_eq!(graph.disconnect(edge), Ok(()));
    assert_eq!(graph.disconnect(edge), Err(Error::UnknownEdge));
    assert!(graph.all_edges().is_empty());
}

#[test]
fn disconnect_of_an_edge_never_committed_fails() {
    let mut graph = GraphStore::new();
    let a = graph.spawn(Point::new(0, 0), source("a"));
    let b = graph.spawn(Point::new(100, 0), sink("b", NUMBER));
    let edge = Edge { from: out(a, 0), to: inp(b, 0) };
    assert_eq!(graph.disconnect(edge), Err(Error::UnknownEdge));
}

#[test]
fn remove_node_hands_back_the_kind() {
    let mut graph = GraphStore::new();
    let a = graph.spawn(Point::new(0, 0), source("a"));
    let kind = graph.remove_node(a).unwrap();
    assert_eq!(kind.behavior, "behavior of a");
    assert_eq!(kind.descriptor.label, "a");
    assert_eq!(graph.len(), 0);
    assert!(!graph.contains(a));
}

#[test]
fn remove_node_removes_every_edge_at_its_ports() {
    let mut graph = GraphStore::new();
    let a = graph.spawn(Point::new(0, 0), source("a"));
    let mid = graph.spawn(Point::new(50, 0), kind("mid", &[NUMBER], &[NUMBER]));
    let b = graph.spawn(Point::new(100, 0), kind("b", &[NUMBER, NUMBER], &[]));
    assert!(graph.connect(out(a, 0), inp(mid, 0)).is_ok());
    assert!(graph.connect(out(mid, 0), inp(b, 0)).is_ok());
    assert!(graph.connect(out(a, 0), inp(b, 1)).is_ok());
    assert!(graph.remove_node(mid).is_ok());
    assert_eq!(graph.all_edges(), vec![Edge { from: out(a, 0), to: inp(b, 1) }]);
    assert!(graph.edges_of(inp(mid, 0)).is_empty());
    assert!(graph.edges_of(out(mid, 0)).is_empty());
    for edge in graph.all_edges() {
        assert_ne!(edge.from.node, mid);
        assert_ne!(edge.to.node, mid);
    }
}

#[test]
fn remove_node_twice_fails_with_unknown_node() {
    let mut graph = GraphStore::new();
    let a = graph.spawn(Point::new(0, 0), source("a"));
    assert!(graph.remove_node(a).is_ok());
    assert_eq!(graph.remove_node(a).err(), Some(Error::UnknownNode));
}

#[test]
fn a_removed_nodes_identity_fails_everywhere() {
    let mut graph = GraphStore::new();
    let a = graph.spawn(Point::new(0, 0), source("a"));
    let b = graph.spawn(Point::new(100, 0), sink("b", NUMBER));
    assert!(graph.remove_node(a).is_ok());
    let again = graph.spawn(Point::new(0, 0), source("again"));
    assert_ne!(again, a);
    assert!(!graph.contains(a));
    assert_eq!(graph.node(a).err(), Some(Error::UnknownNode));
    assert_eq!(graph.port(out(a, 0)), Err(Error::UnknownNode));
    assert_eq!(graph.move_node(a, Point::new(1, 1)), Err(Error::UnknownNode));
    assert_eq!(graph.connect(out(a, 0), inp(b, 0)), Err(Error::UnknownNode));
    assert_eq!(graph.behavior_mut(a).err(), Some(Error::UnknownNode));
    assert_eq!(graph.remove_node(a).err(), Some(Error::UnknownNode));
    assert_eq!(graph.node(again).unwrap().label(), "again");
}

#[test]
fn behavior_mut_reaches_only_the_behavior() {
    let mut graph = GraphStore::new();
    let a = graph.spawn(Point::new(0, 0), source("a"));
    let b = graph.spawn(Point::new(100, 0), sink("b", NUMBER));
    assert!(graph.connect(out(a, 0), inp(b, 0)).is_ok());
    graph.behavior_mut(a).unwrap().push_str(", changed");
    assert_eq!(graph.node(a).unwrap().node.behavior, "behavior of a, changed");
    assert_eq!(graph.node(b).unwrap().node.behavior, "behavior of b");
    assert_eq!(graph.all_edges().len(), 1);
    assert_eq!(graph.node(a).unwrap().position, Point { x: 0, y: 0 });
}

#[test]
fn reconnecting_replaces_the_source() {
    let mut graph = GraphStore::new();
    let a = graph.spawn(Point::new(0, 0), source("a"));
    let b = graph.spawn(Point::new(100, 0), sink("b", NUMBER));
    let c = graph.spawn(Point::new(0, 100), source("c"));
    assert!(graph.connect(out(a, 0), inp(b, 0)).is_ok());
    assert!(graph.connect(out(c, 0), inp(b, 0)).is_ok());
    let into_b = graph.edges_of(inp(b, 0));
    assert_eq!(into_b.len(), 1);
    assert_eq!(into_b[0].from, out(c, 0));
    assert!(graph.edges_of(out(a, 0)).is_empty());
}
