use livestack_shared::systems::def_graph::DefGraph;
use livestack_shared::systems::def_graph::DefGraphNode;
use livestack_shared::systems::def_graph::DefGraphParts;
use livestack_shared::systems::def_graph::NodeType;
use livestack_shared::systems::def_graph_utils::FromSpecAndTag;
use livestack_shared::systems::def_graph_utils::SpecTagInfo;
use livestack_shared::systems::def_graph_utils::ToSpecAndTag;
use livestack_shared::systems::error::GraphError;
use livestack_shared::systems::instantiated_graph::InstantiatedGraph;
use livestack_shared::systems::instantiated_graph::InstantiatedNodeType;
use livestack_shared::systems::instantiated_graph::StreamSourceSpecType;
use livestack_shared::systems::str_map::StrMap;

fn port(spec_name: &str, tag: &str) -> SpecTagInfo {
    SpecTagInfo {
        spec_name: spec_name.to_string(),
        tag: tag.to_string(),
        unique_spec_label: None,
    }
}

fn plain(def_graph: &DefGraph, context: &str, root: &str) -> InstantiatedGraph {
    InstantiatedGraph::new(
        context.to_string(),
        root.to_string(),
        StrMap::new(),
        StrMap::new(),
        StrMap::new(),
        def_graph,
    )
    .unwrap()
}

fn streams(graph: &InstantiatedGraph) -> Vec<u32> {
    graph
        .node_indices()
        .into_iter()
        .filter(|i| graph.node_weight(*i).unwrap().node_type == InstantiatedNodeType::Stream)
        .collect()
}

/// Root with the input `in1` and the output `out1`, and a worker that reads
/// the stream of `in1` at its inlet `in` and writes the stream of `out1` at
/// its outlet `out`.
fn root_and_worker() -> DefGraph {
    let mut def_graph = DefGraph::new(
        "Root".to_string(),
        vec!["in1".to_string()],
        vec!["out1".to_string()],
    );
    // 0 root, 1 inlet in1, 2 its stream, 3 outlet out1, 4 its stream
    let worker = def_graph.ensure_node(
        "Worker",
        DefGraphNode::new(NodeType::Spec, "Worker".to_string()).with_spec_name("Worker".to_string()),
    );
    let inlet = def_graph.ensure_node(
        "Worker/in",
        DefGraphNode::new(NodeType::Inlet, "Worker/in".to_string())
            .with_tag("in".to_string())
            .with_has_transform(false),
    );
    let outlet = def_graph.ensure_node(
        "Worker/out",
        DefGraphNode::new(NodeType::Outlet, "Worker/out".to_string()).with_tag("out".to_string()),
    );
    def_graph.ensure_edge(2, inlet).unwrap();
    def_graph.ensure_edge(inlet, worker).unwrap();
    def_graph.ensure_edge(worker, outlet).unwrap();
    def_graph.ensure_edge(outlet, 4).unwrap();
    def_graph
}

#[test]
fn a_worker_between_the_streams_of_the_root() {
    let def_graph = root_and_worker();
    let graph = plain(&def_graph, "ctx", "root");

    assert_eq!(graph.node_count(), def_graph.node_count());
    assert_eq!(graph.edge_count(), def_graph.edge_count());

    let root = graph.get_root_job_node_id().unwrap();
    assert_eq!(root, 0);
    let root_node = graph.node_weight(root).unwrap();
    assert_eq!(root_node.node_type, InstantiatedNodeType::RootJob);
    assert_eq!(root_node.job_id.as_deref(), Some("root"));
    assert_eq!(root_node.spec_name.as_deref(), Some("Root"));

    let worker = graph.node_weight(5).unwrap();
    assert_eq!(worker.node_type, InstantiatedNodeType::Job);
    assert_eq!(worker.job_id.as_deref(), Some("[ctx]Worker"));
    assert_eq!(worker.label, "[ctx]Worker");
    assert_eq!(worker.spec_name.as_deref(), Some("Worker"));

    assert_eq!(streams(&graph), vec![2, 4]);
    assert_eq!(
        graph.node_weight(2).unwrap().stream_id.as_deref(),
        Some("[ctx]Root/in1>>(*)")
    );
    assert_eq!(
        graph.node_weight(4).unwrap().stream_id.as_deref(),
        Some("[ctx]Root/out1>>(*)")
    );

    // The stream of in1 feeds the worker and the root.
    assert_eq!(graph.stream_target_ids(2), vec![(6, 5), (1, 0)]);
    assert_eq!(graph.stream_source_ids(2), None);
    // The stream of out1 is fed by the worker, whose outlet was wired last.
    assert_eq!(graph.stream_source_ids(4), Some((5, 7)));
    assert_eq!(graph.stream_target_ids(4), Vec::<(u32, u32)>::new());

    assert_eq!(
        graph.find_stream_node_id_connected_to_job("[ctx]Worker", "in", "in"),
        Some(2)
    );
    assert_eq!(
        graph.find_stream_node_id_connected_to_job("root", "in", "in1"),
        Some(2)
    );
    assert_eq!(
        graph.find_stream_node_id_connected_to_job("[ctx]Worker", "in", "in1"),
        None
    );
    assert_eq!(
        graph.find_stream_node_id_connected_to_job("[ctx]Worker", "sideways", "in"),
        None
    );
}

#[test]
fn a_worker_fed_by_the_root_and_feeding_it() {
    let mut def_graph = DefGraph::new(
        "Root".to_string(),
        vec!["in1".to_string()],
        vec!["out1".to_string()],
    );
    let worker = def_graph.ensure_node(
        "Worker",
        DefGraphNode::new(NodeType::Spec, "Worker".to_string()).with_spec_name("Worker".to_string()),
    );
    let inlet = def_graph.ensure_node(
        "Worker/in",
        DefGraphNode::new(NodeType::Inlet, "Worker/in".to_string()).with_tag("in".to_string()),
    );
    let outlet = def_graph.ensure_node(
        "Worker/out",
        DefGraphNode::new(NodeType::Outlet, "Worker/out".to_string()).with_tag("out".to_string()),
    );
    // root -> outlet out1 -> stream 4 -> inlet in -> worker
    def_graph.ensure_edge(4, inlet).unwrap();
    def_graph.ensure_edge(inlet, worker).unwrap();
    // worker -> outlet out -> stream 2 -> inlet in1 -> root
    def_graph.ensure_edge(worker, outlet).unwrap();
    def_graph.ensure_edge(outlet, 2).unwrap();

    let graph = plain(&def_graph, "ctx", "root");
    assert_eq!(streams(&graph), vec![2, 4]);

    let down = graph.get_nodes_connected_to_stream(4);
    let source = down.source.unwrap();
    assert_eq!(source.origin.job_id.as_deref(), Some("root"));
    assert_eq!(source.origin.node_type, InstantiatedNodeType::RootJob);
    assert_eq!(source.outlet_node.tag.as_deref(), Some("out1"));
    assert_eq!(down.targets.len(), 1);
    assert_eq!(down.targets[0].inlet_node.tag.as_deref(), Some("in"));
    assert_eq!(
        down.targets[0].destination.job_id.as_deref(),
        Some("[ctx]Worker")
    );

    let up = graph.get_nodes_connected_to_stream(2);
    let source = up.source.unwrap();
    assert_eq!(source.origin.job_id.as_deref(), Some("[ctx]Worker"));
    assert_eq!(source.outlet_node.tag.as_deref(), Some("out"));
    assert_eq!(up.targets.len(), 1);
    assert_eq!(up.targets[0].inlet_node.tag.as_deref(), Some("in1"));
    assert_eq!(up.targets[0].destination.job_id.as_deref(), Some("root"));

    assert_eq!(
        graph.find_stream_node_id_connected_to_job("[ctx]Worker", "in", "in"),
        Some(4)
    );
    assert_eq!(
        graph.find_stream_node_id_connected_to_job("anything", "out", "out1"),
        Some(4)
    );
    assert_eq!(
        graph.find_stream_node_id_connected_to_job("root", "out", "out"),
        None
    );
    assert_eq!(
        graph
            .get_source_spec_node_connected_to_stream(4)
            .unwrap()
            .origin
            .job_id
            .as_deref(),
        Some("root")
    );
    assert_eq!(graph.get_target_spec_nodes_connected_to_stream(2).len(), 1);
    assert_eq!(graph.get_source_spec_node_connected_to_stream(0), None);
}

#[test]
fn jobs_are_named_after_spec_label_and_context() {
    let mut def_graph = DefGraph::new("Root".to_string(), vec![], vec![]);
    def_graph
        .add_connected_dual_specs(
            &FromSpecAndTag {
                spec_name: "A".to_string(),
                output: "out".to_string(),
                unique_spec_label: Some("v1".to_string()),
            },
            &ToSpecAndTag {
                spec_name: "B".to_string(),
                input: "in".to_string(),
                has_transform: true,
                unique_spec_label: None,
            },
        )
        .unwrap();
    let graph = plain(&def_graph, "c", "r");
    let ids: Vec<Option<String>> = graph.nodes().into_iter().map(|n| n.job_id).collect();
    assert_eq!(
        ids,
        vec![
            Some("r".to_string()),
            Some("[c]A[v1]".to_string()),
            None,
            None,
            None,
            Some("[c]B".to_string())
        ]
    );
    let nodes = graph.nodes();
    assert_eq!(nodes[1].unique_spec_label.as_deref(), Some("v1"));
    assert_eq!(nodes[2].node_type, InstantiatedNodeType::Outlet);
    assert_eq!(nodes[2].label, "A[v1]/out");
    assert_eq!(nodes[3].node_type, InstantiatedNodeType::Stream);
    assert_eq!(nodes[3].stream_id.as_deref(), Some("[c]A(v1)/out>>B/in"));
    assert_eq!(nodes[3].label, "[c]A(v1)/out>>B/in");
    assert_eq!(nodes[4].node_type, InstantiatedNodeType::Inlet);
    assert_eq!(nodes[4].has_transform, Some(true));
    assert_eq!(
        graph.raw_edges(),
        vec![vec![1, 2], vec![2, 3], vec![3, 4], vec![4, 5]]
    );
}

#[test]
fn a_given_identifier_is_used_for_an_output_of_the_root() {
    let def_graph = DefGraph::new(
        "Root".to_string(),
        vec!["in1".to_string()],
        vec!["out1".to_string()],
    );
    let mut overrides: StrMap<String> = StrMap::new();
    overrides.insert("out/out1".to_string(), "given-out".to_string());
    overrides.insert("in/in1".to_string(), "given-in".to_string());
    overrides.insert("in/out1".to_string(), "unused".to_string());
    let graph = InstantiatedGraph::new(
        "ctx".to_string(),
        "root".to_string(),
        overrides,
        StrMap::new(),
        StrMap::new(),
        &def_graph,
    )
    .unwrap();
    assert_eq!(
        graph.node_weight(2).unwrap().stream_id.as_deref(),
        Some("given-in")
    );
    assert_eq!(graph.node_weight(2).unwrap().label, "given-in");
    assert_eq!(
        graph.node_weight(4).unwrap().stream_id.as_deref(),
        Some("given-out")
    );
    assert_eq!(
        graph.find_stream_node_id_connected_to_job("root", "out", "out1"),
        Some(4)
    );
    assert_eq!(graph.stream_id_overrides().len(), 3);
}

#[test]
fn stream_definitions_with_one_identifier_become_one_stream() {
    let mut def_graph = DefGraph::new("Root".to_string(), vec!["in1".to_string()], vec![]);
    // 0 root, 1 inlet in1, 2 its stream
    let (inlet, stream) = def_graph.ensure_inlet_and_stream(port("A", "in"), false);
    assert_eq!((inlet, stream), (4, 5));
    let mut overrides: StrMap<String> = StrMap::new();
    overrides.insert("in/in1".to_string(), "shared".to_string());
    overrides.insert("in/in".to_string(), "shared".to_string());
    let graph = InstantiatedGraph::new(
        "ctx".to_string(),
        "root".to_string(),
        overrides,
        StrMap::new(),
        StrMap::new(),
        &def_graph,
    )
    .unwrap();
    assert_eq!(def_graph.node_count(), 6);
    assert_eq!(graph.node_count(), 5);
    assert_eq!(streams(&graph), vec![2]);
    assert_eq!(graph.edge_count(), def_graph.edge_count());
    assert_eq!(
        graph.raw_edges(),
        vec![vec![2, 1], vec![1, 0], vec![2, 4], vec![4, 3]]
    );
    assert_eq!(graph.stream_target_ids(2), vec![(4, 3), (1, 0)]);
}

#[test]
fn equal_boundary_tags_collapse_without_any_override() {
    let def_graph = DefGraph::new(
        "Root".to_string(),
        vec!["t".to_string()],
        vec!["t".to_string()],
    );
    let graph = plain(&def_graph, "ctx", "root");
    assert_eq!(def_graph.node_count(), 5);
    assert_eq!(graph.node_count(), 4);
    assert_eq!(streams(&graph), vec![2]);
    assert_eq!(
        graph.raw_edges(),
        vec![vec![2, 1], vec![1, 0], vec![0, 3], vec![3, 2]]
    );
}

#[test]
fn a_given_transform_flag_replaces_the_inlets_own() {
    let mut def_graph = DefGraph::new("Root".to_string(), vec!["in1".to_string()], vec![]);
    def_graph.ensure_inlet_and_stream(port("A", "x"), true);
    def_graph.ensure_inlet_and_stream(port("A", "y"), true);
    let mut flags: StrMap<bool> = StrMap::new();
    flags.insert("in1".to_string(), true);
    flags.insert("x".to_string(), false);
    let graph = InstantiatedGraph::new(
        "ctx".to_string(),
        "root".to_string(),
        StrMap::new(),
        flags,
        StrMap::new(),
        &def_graph,
    )
    .unwrap();
    let by_tag = |tag: &str| {
        graph
            .nodes()
            .into_iter()
            .find(|n| n.tag.as_deref() == Some(tag))
            .unwrap()
            .has_transform
    };
    assert_eq!(by_tag("in1"), Some(true));
    assert_eq!(by_tag("x"), Some(false));
    assert_eq!(by_tag("y"), Some(true));
    assert_eq!(graph.inlet_has_transform_overrides_by_tag().len(), 2);
}

#[test]
fn aliases_come_along_unchanged() {
    let mut def_graph = DefGraph::new("Root".to_string(), vec![], vec![]);
    def_graph.ensure_inlet_and_stream(port("A", "t"), false);
    def_graph.assign_alias("x", "A", "Root", None, "in", "t").unwrap();
    let graph = plain(&def_graph, "ctx", "root");
    let alias = graph.node_weight(4).unwrap();
    assert_eq!(alias.node_type, InstantiatedNodeType::Alias);
    assert_eq!(alias.alias.as_deref(), Some("x"));
    assert_eq!(alias.direction.as_deref(), Some("in"));
    assert_eq!(alias.label, "Root/x");
    assert_eq!(graph.inbound_neighbors(0), vec![4]);
    assert_eq!(graph.outbound_neighbors(2), vec![4, 1]);
}

#[test]
fn a_spec_without_a_name_cannot_be_translated() {
    let mut def_graph = DefGraph::new("Root".to_string(), vec![], vec![]);
    def_graph.ensure_node("nameless", DefGraphNode::new(NodeType::Spec, "nameless".to_string()));
    let made = InstantiatedGraph::new(
        "ctx".to_string(),
        "root".to_string(),
        StrMap::new(),
        StrMap::new(),
        StrMap::new(),
        &def_graph,
    );
    assert!(matches!(made, Err(GraphError::InternalConsistency)));
}

#[test]
fn a_stream_definition_without_an_identifier_needs_a_given_one() {
    let mut def_graph = DefGraph::new("Root".to_string(), vec![], vec![]);
    let stream = def_graph.ensure_node(
        "nameless",
        DefGraphNode::new(NodeType::StreamDef, "nameless".to_string()),
    );
    let inlet = def_graph.ensure_node(
        "A/in",
        DefGraphNode::new(NodeType::Inlet, "A/in".to_string()).with_tag("in".to_string()),
    );
    let spec = def_graph.ensure_node(
        "A",
        DefGraphNode::new(NodeType::Spec, "A".to_string()).with_spec_name("A".to_string()),
    );
    def_graph.ensure_edge(stream, inlet).unwrap();
    def_graph.ensure_edge(inlet, spec).unwrap();
    let without = InstantiatedGraph::new(
        "ctx".to_string(),
        "root".to_string(),
        StrMap::new(),
        StrMap::new(),
        StrMap::new(),
        &def_graph,
    );
    assert!(matches!(without, Err(GraphError::InternalConsistency)));
    let mut overrides: StrMap<String> = StrMap::new();
    overrides.insert("in/in".to_string(), "given".to_string());
    let with = InstantiatedGraph::new(
        "ctx".to_string(),
        "root".to_string(),
        overrides,
        StrMap::new(),
        StrMap::new(),
        &def_graph,
    )
    .unwrap();
    assert_eq!(
        with.node_weight(stream).unwrap().stream_id.as_deref(),
        Some("given")
    );
}

#[test]
fn edges_are_addressed_by_their_index() {
    let def_graph = root_and_worker();
    let graph = plain(&def_graph, "ctx", "root");
    assert_eq!(
        graph.raw_edges(),
        vec![
            vec![2, 1],
            vec![1, 0],
            vec![0, 3],
            vec![3, 4],
            vec![2, 6],
            vec![6, 5],
            vec![5, 7],
            vec![7, 4]
        ]
    );
    assert_eq!(graph.outbound_edges(2), vec![4, 0]);
    assert_eq!(graph.inbound_edges(4), vec![7, 3]);
    assert_eq!(graph.inbound_edges(2), Vec::<u32>::new());
    assert_eq!(graph.outbound_edges(99), Vec::<u32>::new());
    assert_eq!(graph.source(4), Ok(2));
    assert_eq!(graph.target(4), Ok(6));
    assert_eq!(graph.source(7), Ok(7));
    assert_eq!(graph.target(7), Ok(4));
    assert_eq!(graph.source(8), Err(GraphError::EdgeNotFound));
    assert_eq!(graph.target(8), Err(GraphError::EdgeNotFound));
    assert_eq!(graph.inbound_neighbors(4), vec![7, 3]);
    assert_eq!(graph.outbound_neighbors(2), vec![6, 1]);
    assert_eq!(graph.node_weight(8), None);
}

#[test]
fn what_the_graph_was_made_from_is_kept() {
    let def_graph = root_and_worker();
    let mut sources: StrMap<StreamSourceSpecType> = StrMap::new();
    sources.insert(
        "s".to_string(),
        StreamSourceSpecType {
            spec_name: "A".to_string(),
            tag: "out".to_string(),
        },
    );
    let graph = InstantiatedGraph::new(
        "ctx".to_string(),
        "root".to_string(),
        StrMap::new(),
        StrMap::new(),
        sources,
        &def_graph,
    )
    .unwrap();
    assert_eq!(graph.context_id(), "ctx");
    assert_eq!(graph.get_root_job_id(), "root");
    assert_eq!(graph.def_graph().nodes(), def_graph.nodes());
    assert_eq!(graph.def_graph().raw_edges(), def_graph.raw_edges());
    let kept = graph.stream_source_spec_type_by_stream_id().get("s").unwrap();
    assert_eq!(kept.spec_name, "A");
    assert_eq!(kept.tag, "out");
    assert_eq!(graph.stream_id_overrides().len(), 0);
}

#[test]
fn a_graph_without_a_root_has_no_root_job() {
    let def_graph = DefGraph::from_parts(DefGraphParts {
        nodes: vec![
            DefGraphNode::new(NodeType::Spec, "A".to_string()).with_spec_name("A".to_string()),
        ],
        edges: vec![],
        node_indices: vec![],
        stream_ids: vec![],
    })
    .unwrap();
    let graph = plain(&def_graph, "ctx", "root");
    assert_eq!(graph.get_root_job_node_id(), Err(GraphError::NodeNotFound));
    assert_eq!(graph.node_count(), 1);
}

#[test]
fn specs_with_one_identifier_share_the_edges_of_the_last() {
    let spec = || DefGraphNode::new(NodeType::Spec, "A".to_string()).with_spec_name("A".to_string());
    let inlet =
        || DefGraphNode::new(NodeType::Inlet, "A/in".to_string()).with_tag("in".to_string());
    let def_graph = DefGraph::from_parts(DefGraphParts {
        nodes: vec![spec(), inlet(), spec()],
        edges: vec![(1, 0)],
        node_indices: vec![],
        stream_ids: vec![],
    })
    .unwrap();
    let graph = plain(&def_graph, "ctx", "root");
    assert_eq!(graph.node_count(), 3);
    assert_eq!(graph.raw_edges(), vec![vec![1, 2]]);
}
