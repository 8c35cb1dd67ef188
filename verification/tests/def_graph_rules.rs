use livestack_shared::systems::def_graph::DefGraph;
use livestack_shared::systems::def_graph::DefGraphNode;
use livestack_shared::systems::def_graph::DefGraphParts;
use livestack_shared::systems::def_graph::NodeType;
use livestack_shared::systems::def_graph::SpecBase;
use livestack_shared::systems::def_graph_utils::FromSpecAndTag;
use livestack_shared::systems::def_graph_utils::SpecTagInfo;
use livestack_shared::systems::def_graph_utils::ToSpecAndTag;
use livestack_shared::systems::error::GraphError;

fn port(spec_name: &str, tag: &str) -> SpecTagInfo {
    SpecTagInfo {
        spec_name: spec_name.to_string(),
        tag: tag.to_string(),
        unique_spec_label: None,
    }
}

fn from(spec_name: &str, output: &str) -> FromSpecAndTag {
    FromSpecAndTag {
        spec_name: spec_name.to_string(),
        output: output.to_string(),
        unique_spec_label: None,
    }
}

fn to(spec_name: &str, input: &str) -> ToSpecAndTag {
    ToSpecAndTag {
        spec_name: spec_name.to_string(),
        input: input.to_string(),
        has_transform: false,
        unique_spec_label: None,
    }
}

fn strings(items: &[&str]) -> Vec<String> {
    items.iter().map(|s| s.to_string()).collect()
}

#[test]
fn a_new_graph_holds_the_root_and_its_boundary() {
    let graph = DefGraph::new("Root".to_string(), strings(&["a", "b"]), strings(&["c"]));
    assert_eq!(graph.node_count(), 7);
    assert_eq!(graph.edge_count(), 6);
    assert_eq!(graph.node_indices(), vec![0, 1, 2, 3, 4, 5, 6]);
    assert_eq!(
        graph.raw_edges(),
        vec![(2, 1), (1, 0), (4, 3), (3, 0), (0, 5), (5, 6)]
    );

    let root = graph.node_weight(0).unwrap();
    assert_eq!(root.node_type, NodeType::RootSpec);
    assert_eq!(root.spec_name.as_deref(), Some("Root"));
    assert_eq!(root.label, "Root");

    let inlet = graph.node_weight(1).unwrap();
    assert_eq!(inlet.node_type, NodeType::Inlet);
    assert_eq!(inlet.tag.as_deref(), Some("a"));
    assert_eq!(inlet.has_transform, Some(false));
    assert_eq!(inlet.label, "Root/a");

    let stream = graph.node_weight(2).unwrap();
    assert_eq!(stream.node_type, NodeType::StreamDef);
    assert_eq!(stream.stream_def_id.as_deref(), Some("Root/a>>(*)"));
    assert_eq!(stream.label, "Root/a>>(*)");

    let outlet = graph.node_weight(5).unwrap();
    assert_eq!(outlet.node_type, NodeType::Outlet);
    assert_eq!(outlet.tag.as_deref(), Some("c"));
    assert_eq!(outlet.has_transform, None);
    assert_eq!(outlet.label, "Root/c");

    let out_stream = graph.node_weight(6).unwrap();
    assert_eq!(out_stream.stream_def_id.as_deref(), Some("Root/c>>(*)"));

    assert_eq!(graph.node_weight(7), None);
    assert_eq!(graph.get_root_spec_node_id(), Some(0));
    assert_eq!(graph.get_all_node_indices(), vec![0]);
}

#[test]
fn a_graph_of_a_spec_base_is_the_graph_of_its_name_and_tags() {
    let graph = DefGraph::of_root(SpecBase {
        name: "Root".to_string(),
        input_tags: strings(&["a"]),
        output_tags: strings(&["c"]),
    });
    assert_eq!(graph.node_count(), 5);
    assert_eq!(graph.raw_edges(), vec![(2, 1), (1, 0), (0, 3), (3, 4)]);
}

#[test]
fn neighbours_come_newest_edge_first() {
    let graph = DefGraph::new("Root".to_string(), strings(&["a", "b"]), strings(&["c", "d"]));
    // inlets a and b are the nodes 1 and 3, outlets c and d the nodes 5 and 7
    assert_eq!(graph.inbound_neighbors(0), vec![3, 1]);
    assert_eq!(graph.outbound_neighbors(0), vec![7, 5]);
    assert_eq!(graph.outbound_neighbors(5), vec![6]);
    assert_eq!(graph.inbound_neighbors(1), vec![2]);
    assert_eq!(graph.inbound_neighbors(42), Vec::<u32>::new());
    assert_eq!(graph.outbound_neighbors(42), Vec::<u32>::new());
    assert!(graph.contains_edge(2, 1));
    assert!(!graph.contains_edge(1, 2));
    assert!(!graph.contains_edge(42, 1));
}

#[test]
fn ensure_node_keeps_the_first_payload() {
    let mut graph = DefGraph::new("Root".to_string(), vec![], vec![]);
    let first = DefGraphNode::new(NodeType::Spec, "first".to_string())
        .with_spec_name("A".to_string());
    let second = DefGraphNode::new(NodeType::Spec, "second".to_string())
        .with_spec_name("B".to_string())
        .with_unique_spec_label(Some("x".to_string()));
    assert_ne!(first, second);
    let a = graph.ensure_node("k", first.clone());
    let count = graph.node_count();
    let b = graph.ensure_node("k", second);
    assert_eq!(a, b);
    assert_eq!(graph.node_count(), count);
    assert_eq!(graph.node_weight(a), Some(first));
}

#[test]
fn ensure_node_tells_kinds_apart() {
    let mut graph = DefGraph::new("Root".to_string(), vec![], vec![]);
    let a = graph.ensure_node("k", DefGraphNode::new(NodeType::Spec, "s".to_string()));
    let b = graph.ensure_node("k", DefGraphNode::new(NodeType::Inlet, "i".to_string()));
    assert_ne!(a, b);
    assert_eq!(graph.node_count(), 3);
    assert_eq!(graph.get_all_node_indices(), vec![0, a, b]);
}

#[test]
fn ensure_edge_twice_gives_one_edge() {
    let mut graph = DefGraph::new("Root".to_string(), vec![], vec![]);
    let a = graph.ensure_node("a", DefGraphNode::new(NodeType::Spec, "a".to_string()));
    let b = graph.ensure_node("b", DefGraphNode::new(NodeType::Spec, "b".to_string()));
    assert_eq!(graph.ensure_edge(a, b), Ok(()));
    assert_eq!(graph.ensure_edge(a, b), Ok(()));
    assert_eq!(graph.edge_count(), 1);
    assert_eq!(graph.raw_edges(), vec![(a, b)]);
    assert_eq!(graph.ensure_edge(b, a), Ok(()));
    assert_eq!(graph.raw_edges(), vec![(a, b), (b, a)]);
}

#[test]
fn ensure_edge_refuses_a_handle_that_is_no_node() {
    let mut graph = DefGraph::new("Root".to_string(), vec![], vec![]);
    assert_eq!(graph.ensure_edge(0, 1), Err(GraphError::NodeNotFound));
    assert_eq!(graph.ensure_edge(5, 0), Err(GraphError::NodeNotFound));
    assert_eq!(graph.edge_count(), 0);
    assert_eq!(graph.ensure_edge(0, 0), Ok(()));
    assert_eq!(graph.edge_count(), 1);
}

#[test]
fn one_outlet_feeds_several_inlets_through_one_stream() {
    let mut graph = DefGraph::new("Root".to_string(), vec![], vec![]);
    let first = graph
        .add_connected_dual_specs(&from("A", "out1"), &to("B", "in"))
        .unwrap();
    let second = graph
        .add_connected_dual_specs(&from("A", "out1"), &to("C", "in"))
        .unwrap();
    assert_eq!(first.2, second.2);
    assert_eq!(first.0, second.0);
    assert_eq!(first.3, second.3);
    assert_ne!(first.1, second.1);
    assert_ne!(first.4, second.4);
    let stream = graph.node_weight(first.2).unwrap();
    assert_eq!(stream.stream_def_id.as_deref(), Some("A/out1>>B/in"));
    assert_eq!(graph.outbound_neighbors(first.3), vec![first.2]);
    assert_eq!(graph.outbound_neighbors(first.2), vec![second.4, first.4]);
    assert_eq!(graph.stream_source(first.2), Some((first.0, first.3)));
    assert_eq!(
        graph.stream_targets(first.2),
        vec![(second.4, second.1), (first.4, first.1)]
    );
}

#[test]
fn a_second_stream_at_an_outlet_is_refused() {
    let mut graph = DefGraph::new("Root".to_string(), vec![], vec![]);
    let first = graph
        .add_connected_dual_specs(&from("A", "out1"), &to("B", "in"))
        .unwrap();
    graph
        .add_connected_dual_specs(&from("A", "out1"), &to("C", "in"))
        .unwrap();
    let other = graph.ensure_node(
        "other",
        DefGraphNode::new(NodeType::StreamDef, "other".to_string())
            .with_stream_def_id("other".to_string()),
    );
    graph.ensure_edge(first.3, other).unwrap();
    let nodes = graph.node_count();
    let edges = graph.edge_count();
    assert_eq!(
        graph.add_connected_dual_specs(&from("A", "out1"), &to("D", "in")),
        Err(GraphError::AmbiguousStreamFanout)
    );
    assert_eq!(graph.node_count(), nodes);
    assert_eq!(graph.edge_count(), edges);
}

#[test]
fn a_stream_without_an_identifier_cannot_be_reused() {
    let mut graph = DefGraph::new("Root".to_string(), vec![], vec![]);
    let outlet = graph.ensure_node(
        "A/out1",
        DefGraphNode::new(NodeType::Outlet, "A/out1".to_string()).with_tag("out1".to_string()),
    );
    let stream = graph.ensure_node(
        "nameless",
        DefGraphNode::new(NodeType::StreamDef, "nameless".to_string()),
    );
    graph.ensure_edge(outlet, stream).unwrap();
    let nodes = graph.node_count();
    assert_eq!(
        graph.add_connected_dual_specs(&from("A", "out1"), &to("B", "in")),
        Err(GraphError::InternalConsistency)
    );
    assert_eq!(graph.node_count(), nodes);
}

#[test]
fn a_neighbour_that_is_no_stream_does_not_count_at_an_outlet() {
    let mut graph = DefGraph::new("Root".to_string(), vec![], vec![]);
    let outlet = graph.ensure_node(
        "A/out1",
        DefGraphNode::new(NodeType::Outlet, "A/out1".to_string()).with_tag("out1".to_string()),
    );
    let alias = graph.ensure_node("x", DefGraphNode::new(NodeType::Alias, "x".to_string()));
    graph.ensure_edge(outlet, alias).unwrap();
    let made = graph
        .add_connected_dual_specs(&from("A", "out1"), &to("B", "in"))
        .unwrap();
    assert_eq!(made.3, outlet);
    assert_eq!(graph.outbound_neighbors(outlet), vec![made.2, alias]);
}

#[test]
fn connected_specs_with_labels_are_named_after_them() {
    let mut graph = DefGraph::new("Root".to_string(), vec![], vec![]);
    let a = FromSpecAndTag {
        spec_name: "A".to_string(),
        output: "out".to_string(),
        unique_spec_label: Some("v1".to_string()),
    };
    let b = ToSpecAndTag {
        spec_name: "B".to_string(),
        input: "in".to_string(),
        has_transform: true,
        unique_spec_label: Some("default_label".to_string()),
    };
    let made = graph.add_connected_dual_specs(&a, &b).unwrap();
    assert_eq!(graph.node_weight(made.0).unwrap().label, "A[v1]");
    assert_eq!(graph.node_weight(made.1).unwrap().label, "B");
    assert_eq!(graph.node_weight(made.3).unwrap().label, "A[v1]/out");
    assert_eq!(graph.node_weight(made.4).unwrap().label, "B/in");
    assert_eq!(
        graph.node_weight(made.2).unwrap().stream_def_id.as_deref(),
        Some("A(v1)/out>>B/in")
    );
    assert_eq!(
        graph.raw_edges(),
        vec![
            (made.0, made.3),
            (made.3, made.2),
            (made.2, made.4),
            (made.4, made.1)
        ]
    );
}

#[test]
fn a_remembered_stream_is_used_for_its_ports() {
    let mut graph = DefGraph::new("Root".to_string(), vec![], vec![]);
    let made = graph
        .add_connected_dual_specs(&from("A", "out"), &to("B", "in"))
        .unwrap();
    let (inlet, stream) = graph.ensure_inlet_and_stream(port("B", "in"), false);
    assert_eq!(stream, made.2);
    assert_eq!(inlet, made.4);
    let (outlet, stream) = graph.ensure_outlet_and_stream(port("A", "out"));
    assert_eq!(stream, made.2);
    assert_eq!(outlet, made.3);
    assert_eq!(graph.node_count(), 6);
    assert_eq!(graph.edge_count(), 4);
}

#[test]
fn asking_twice_for_an_inlet_changes_nothing() {
    let mut graph = DefGraph::new("Root".to_string(), vec![], vec![]);
    let first = graph.ensure_inlet_and_stream(port("A", "in"), true);
    let nodes = graph.node_count();
    let edges = graph.edge_count();
    let second = graph.ensure_inlet_and_stream(port("A", "in"), false);
    assert_eq!(first, second);
    assert_eq!(graph.node_count(), nodes);
    assert_eq!(graph.edge_count(), edges);
    assert_eq!(graph.node_weight(first.0).unwrap().has_transform, Some(true));
}

#[test]
fn an_alias_is_found_in_both_directions_of_the_search() {
    let mut graph = DefGraph::new("Root".to_string(), vec![], vec![]);
    graph.ensure_inlet_and_stream(port("A", "t"), false);
    assert_eq!(graph.assign_alias("x", "A", "Root", None, "in", "t"), Ok(()));
    assert_eq!(
        graph.lookup_root_spec_alias(
            "A".to_string(),
            None,
            "t".to_string(),
            "in".to_string()
        ),
        Some("x".to_string())
    );
    assert_eq!(
        graph.lookup_spec_and_tag_by_alias("x".to_string(), "in"),
        Some(port("A", "t"))
    );
    assert_eq!(graph.get_all_alias_node_ids(), vec![4]);
    let alias = graph.node_weight(4).unwrap();
    assert_eq!(alias.node_type, NodeType::Alias);
    assert_eq!(alias.alias.as_deref(), Some("x"));
    assert_eq!(alias.direction.as_deref(), Some("in"));
    assert_eq!(alias.label, "Root/x");
    // inlet to alias, alias to root
    assert!(graph.contains_edge(2, 4));
    assert!(graph.contains_edge(4, 0));
}

#[test]
fn an_alias_of_an_outlet_is_found_too() {
    let mut graph = DefGraph::new("Root".to_string(), vec![], vec![]);
    let (outlet, _) = graph.ensure_outlet_and_stream(port("A", "t"));
    assert_eq!(graph.assign_alias("y", "A", "Root", None, "out", "t"), Ok(()));
    let alias = graph.get_all_alias_node_ids()[0];
    assert!(graph.contains_edge(0, alias));
    assert!(graph.contains_edge(alias, outlet));
    assert_eq!(
        graph.lookup_root_spec_alias(
            "A".to_string(),
            None,
            "t".to_string(),
            "out".to_string()
        ),
        Some("y".to_string())
    );
    assert_eq!(
        graph.lookup_spec_and_tag_by_alias("y".to_string(), "out"),
        Some(port("A", "t"))
    );
    assert_eq!(graph.lookup_spec_and_tag_by_alias("y".to_string(), "in"), None);
}

#[test]
fn an_alias_is_refused_for_what_the_graph_does_not_hold() {
    let mut graph = DefGraph::new("Root".to_string(), vec![], vec![]);
    graph.ensure_inlet_and_stream(port("A", "t"), false);
    let nodes = graph.node_count();
    let edges = graph.edge_count();
    assert_eq!(
        graph.assign_alias("x", "B", "Root", None, "in", "t"),
        Err(GraphError::SpecNotFound)
    );
    assert_eq!(
        graph.assign_alias("x", "A", "Root", Some("v1"), "in", "t"),
        Err(GraphError::SpecNotFound)
    );
    assert_eq!(
        graph.assign_alias("x", "A", "Other", None, "in", "t"),
        Err(GraphError::RootSpecNotFound)
    );
    assert_eq!(
        graph.assign_alias("x", "A", "Root", None, "sideways", "t"),
        Err(GraphError::InvalidDirection)
    );
    assert_eq!(
        graph.assign_alias("x", "A", "Root", None, "in", "u"),
        Err(GraphError::PortNotFound)
    );
    assert_eq!(
        graph.assign_alias("x", "A", "Root", None, "out", "t"),
        Err(GraphError::PortNotFound)
    );
    assert_eq!(graph.node_count(), nodes);
    assert_eq!(graph.edge_count(), edges);
}

#[test]
fn a_search_without_an_alias_finds_nothing() {
    let mut graph = DefGraph::new("Root".to_string(), vec![], vec![]);
    graph.ensure_inlet_and_stream(port("A", "t"), false);
    assert_eq!(
        graph.lookup_root_spec_alias(
            "A".to_string(),
            None,
            "t".to_string(),
            "in".to_string()
        ),
        None
    );
    graph.assign_alias("x", "A", "Root", None, "in", "t").unwrap();
    assert_eq!(
        graph.lookup_root_spec_alias(
            "A".to_string(),
            None,
            "t".to_string(),
            "sideways".to_string()
        ),
        None
    );
    assert_eq!(
        graph.lookup_root_spec_alias(
            "B".to_string(),
            None,
            "t".to_string(),
            "in".to_string()
        ),
        None
    );
    assert_eq!(graph.lookup_spec_and_tag_by_alias("z".to_string(), "in"), None);
    assert_eq!(
        graph.lookup_spec_and_tag_by_alias("x".to_string(), "sideways"),
        None
    );
}

#[test]
fn neighbours_are_picked_by_a_test_on_their_payload() {
    let mut graph = DefGraph::new("Root".to_string(), vec![], vec![]);
    let (in1, _) = graph.ensure_inlet_and_stream(port("A", "t1"), false);
    let (in2, _) = graph.ensure_inlet_and_stream(port("A", "t2"), false);
    let (out1, s1) = graph.ensure_outlet_and_stream(port("A", "o1"));
    let spec = graph
        .find_node(|n| n.node_type == NodeType::Spec)
        .unwrap();
    assert_eq!(
        graph.filter_inbound_neighbors(spec, |n| n.node_type == NodeType::Inlet),
        vec![in2, in1]
    );
    assert_eq!(
        graph.find_inbound_neighbor(spec, |n| n.node_type == NodeType::Inlet),
        Some(in2)
    );
    assert_eq!(
        graph.find_inbound_neighbor(spec, |n| n.tag.as_deref() == Some("t1")),
        Some(in1)
    );
    assert_eq!(
        graph.find_inbound_neighbor(spec, |n| n.node_type == NodeType::Outlet),
        None
    );
    assert_eq!(graph.filter_outbound_neighbors(spec, |_| true), vec![out1]);
    assert_eq!(
        graph.find_outbound_neighbor(out1, |n| n.node_type == NodeType::StreamDef),
        Some(s1)
    );
    assert_eq!(graph.find_node(|n| n.node_type == NodeType::Alias), None);
    assert_eq!(graph.get_spec_node_ids(), vec![spec]);
}

#[test]
fn the_parts_of_a_graph_make_the_graph_again() {
    let mut graph = DefGraph::new("Root".to_string(), strings(&["a"]), strings(&["c"]));
    let made = graph
        .add_connected_dual_specs(&from("A", "out"), &to("B", "in"))
        .unwrap();
    graph.assign_alias("x", "B", "Root", None, "in", "in").unwrap();

    let parts = graph.to_parts();
    assert_eq!(parts.nodes.len(), graph.node_count());
    assert_eq!(parts.edges, graph.raw_edges());
    let mut again = DefGraph::from_parts(parts).unwrap();

    assert_eq!(again.node_count(), graph.node_count());
    assert_eq!(again.edge_count(), graph.edge_count());
    assert_eq!(again.nodes(), graph.nodes());
    assert_eq!(again.raw_edges(), graph.raw_edges());
    assert_eq!(again.get_all_node_indices(), graph.get_all_node_indices());

    // Keys and remembered streams came along.
    let (inlet, stream) = again.ensure_inlet_and_stream(port("B", "in"), false);
    assert_eq!((inlet, stream), (made.4, made.2));
    assert_eq!(again.node_count(), graph.node_count());
}

#[test]
fn a_copy_of_a_graph_holds_what_the_graph_holds() {
    let mut graph = DefGraph::new("Root".to_string(), strings(&["a"]), strings(&["c"]));
    graph
        .add_connected_dual_specs(&from("A", "out"), &to("B", "in"))
        .unwrap();
    let copy = graph.clone();
    assert_eq!(copy.nodes(), graph.nodes());
    assert_eq!(copy.raw_edges(), graph.raw_edges());
    assert_eq!(copy.get_all_node_indices(), graph.get_all_node_indices());
    graph.ensure_node("more", DefGraphNode::new(NodeType::Spec, "more".to_string()));
    assert_eq!(copy.node_count() + 1, graph.node_count());
}

#[test]
fn parts_that_do_not_fit_together_are_refused() {
    let node = || DefGraphNode::new(NodeType::Spec, "n".to_string());
    let refused = |parts: DefGraphParts| {
        matches!(
            DefGraph::from_parts(parts),
            Err(GraphError::DeserializationError)
        )
    };
    // an edge to a node that is not there
    assert!(refused(DefGraphParts {
        nodes: vec![node(), node()],
        edges: vec![(0, 2)],
        node_indices: vec![],
        stream_ids: vec![],
    }));
    assert!(refused(DefGraphParts {
        nodes: vec![node(), node()],
        edges: vec![(2, 0)],
        node_indices: vec![],
        stream_ids: vec![],
    }));
    // an edge twice
    assert!(refused(DefGraphParts {
        nodes: vec![node(), node()],
        edges: vec![(0, 1), (1, 0), (0, 1)],
        node_indices: vec![],
        stream_ids: vec![],
    }));
    // a key that leads nowhere
    assert!(refused(DefGraphParts {
        nodes: vec![node(), node()],
        edges: vec![(0, 1)],
        node_indices: vec![("Spec_n".to_string(), 2)],
        stream_ids: vec![],
    }));
    // and parts that fit
    let ok = DefGraph::from_parts(DefGraphParts {
        nodes: vec![node(), node()],
        edges: vec![(0, 1), (1, 0)],
        node_indices: vec![("Spec_n".to_string(), 1)],
        stream_ids: vec![("p".to_string(), "s".to_string())],
    })
    .unwrap();
    assert_eq!(ok.node_count(), 2);
    assert_eq!(ok.raw_edges(), vec![(0, 1), (1, 0)]);
    assert_eq!(ok.get_all_node_indices(), vec![1]);
    assert_eq!(ok.get_root_spec_node_id(), None);
}

#[test]
fn an_empty_graph_is_made_of_no_parts() {
    let graph = DefGraph::from_parts(DefGraphParts {
        nodes: vec![],
        edges: vec![],
        node_indices: vec![],
        stream_ids: vec![],
    })
    .unwrap();
    assert_eq!(graph.node_count(), 0);
    assert_eq!(graph.edge_count(), 0);
    assert_eq!(graph.find_node(|_| true), None);
}

#[test]
fn the_root_is_kept_under_the_key_of_a_root_spec() {
    let mut graph = DefGraph::new("Root".to_string(), vec![], vec![]);
    let again = graph.ensure_node(
        "Root",
        DefGraphNode::new(NodeType::RootSpec, "other".to_string()),
    );
    assert_eq!(again, 0);
    assert_eq!(graph.node_count(), 1);
    let spec = graph.ensure_node("Root", DefGraphNode::new(NodeType::Spec, "Root".to_string()));
    assert_eq!(spec, 1);
}

#[test]
fn a_key_of_one_kind_does_not_lead_to_a_node_of_another() {
    let refused = DefGraph::from_parts(DefGraphParts {
        nodes: vec![DefGraphNode::new(NodeType::Inlet, "n".to_string())],
        edges: vec![],
        node_indices: vec![("Spec_n".to_string(), 0)],
        stream_ids: vec![],
    });
    assert!(matches!(refused, Err(GraphError::DeserializationError)));
    let refused = DefGraph::from_parts(DefGraphParts {
        nodes: vec![DefGraphNode::new(NodeType::Spec, "n".to_string())],
        edges: vec![],
        node_indices: vec![("StreamDef_n".to_string(), 0)],
        stream_ids: vec![],
    });
    assert!(matches!(refused, Err(GraphError::DeserializationError)));
    // A key that belongs to no kind may lead to any node.
    let taken = DefGraph::from_parts(DefGraphParts {
        nodes: vec![DefGraphNode::new(NodeType::Inlet, "n".to_string())],
        edges: vec![],
        node_indices: vec![("Specn".to_string(), 0), ("Inlet_n".to_string(), 0)],
        stream_ids: vec![],
    });
    assert!(taken.is_ok());
}

#[test]
fn every_kind_has_its_name() {
    assert_eq!(NodeType::RootSpec.as_str(), "RootSpec");
    assert_eq!(NodeType::Spec.as_str(), "Spec");
    assert_eq!(NodeType::StreamDef.as_str(), "StreamDef");
    assert_eq!(NodeType::Inlet.as_str(), "Inlet");
    assert_eq!(NodeType::Outlet.as_str(), "Outlet");
    assert_eq!(NodeType::Alias.as_str(), "Alias");
}
