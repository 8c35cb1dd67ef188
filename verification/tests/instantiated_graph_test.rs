use livestack_shared::systems::def_graph::DefGraph;
use livestack_shared::systems::def_graph::DefGraphNode;
use livestack_shared::systems::def_graph::NodeType;
use livestack_shared::systems::def_graph_utils::SpecTagInfo;
use livestack_shared::systems::instantiated_graph::InstantiatedGraph;
use livestack_shared::systems::instantiated_graph::InstantiatedNodeType;
use livestack_shared::systems::str_map::StrMap;

fn port(spec_name: &str, tag: &str) -> SpecTagInfo {
    SpecTagInfo {
        spec_name: spec_name.to_string(),
        tag: tag.to_string(),
        unique_spec_label: None,
    }
}

#[test]
fn should_instantiate_from_a_def_graph_and_create_all_nodes_and_edges_properly() {
    let root_spec_name = "RootSpec".to_string();
    let input_tags = vec!["input1".to_string(), "input2".to_string()];
    let output_tags = vec!["output1".to_string(), "output2".to_string()];
    let mut def_graph = DefGraph::new(root_spec_name.clone(), input_tags, output_tags);

    let spec_node_data = DefGraphNode {
        node_type: NodeType::Spec,
        spec_name: Some("SpecA".to_string()),
        unique_spec_label: None,
        tag: None,
        has_transform: None,
        stream_def_id: None,
        alias: None,
        direction: None,
        label: "SpecA".to_string(),
    };
    let _spec_node_id = def_graph.ensure_node("SpecA", spec_node_data);

    let instantiated_graph = InstantiatedGraph::new(
        "testContext".to_string(),
        "rootJob".to_string(),
        StrMap::new(),
        StrMap::new(),
        StrMap::new(),
        &def_graph,
    )
    .unwrap();

    let node_indices = instantiated_graph.node_indices();
    let root_job_found = node_indices.iter().any(|node_id| {
        instantiated_graph
            .node_weight(*node_id)
            .and_then(|node| node.job_id.as_ref())
            == Some(&"rootJob".to_string())
    });
    let spec_a_found = node_indices.iter().any(|node_id| {
        instantiated_graph
            .node_weight(*node_id)
            .and_then(|node| node.job_id.as_ref())
            == Some(&"[testContext]SpecA".to_string())
    });
    assert!(root_job_found, "Expected a node with job_id == 'rootJob'.");
    assert!(
        spec_a_found,
        "Expected a node with job_id == '[testContext]SpecA'."
    );

    let edge_count_in_instantiated_graph = instantiated_graph.edge_count();
    let edge_count_in_def_graph = def_graph.edge_count();
    assert_eq!(
        edge_count_in_instantiated_graph, edge_count_in_def_graph,
        "InstantiatedGraph and DefGraph should have the same number of edges"
    );
}

#[test]
fn should_instantiate_with_multiple_spec_nodes_and_compute_correct_job_ids() {
    let mut def_graph = DefGraph::new("RootSpec".to_string(), vec![], vec![]);

    def_graph.ensure_inlet_and_stream(port("SpecA", "dummyA"), false);
    def_graph.ensure_inlet_and_stream(port("SpecB", "dummyB"), false);

    let instantiated_graph = InstantiatedGraph::new(
        "multiTest".to_string(),
        "rootJob".to_string(),
        StrMap::new(),
        StrMap::new(),
        StrMap::new(),
        &def_graph,
    )
    .unwrap();

    let node_indices = instantiated_graph.node_indices();
    let found_spec_a = node_indices.iter().any(|id| {
        let node = instantiated_graph.node_weight(*id).unwrap();
        node.job_id.as_deref() == Some("[multiTest]SpecA")
    });
    let found_spec_b = node_indices.iter().any(|id| {
        let node = instantiated_graph.node_weight(*id).unwrap();
        node.job_id.as_deref() == Some("[multiTest]SpecB")
    });

    assert!(
        found_spec_a,
        "Expected a node with job_id == '[multiTest]SpecA'."
    );
    assert!(
        found_spec_b,
        "Expected a node with job_id == '[multiTest]SpecB'."
    );
}

#[test]
fn should_have_the_same_node_count_as_the_underlying_def_graph() {
    let mut def_graph = DefGraph::new(
        "RootSpec".to_string(),
        vec!["in1".to_string()],
        vec!["out1".to_string()],
    );

    def_graph.ensure_inlet_and_stream(port("SpecA", "dummy"), false);

    let instantiated_graph = InstantiatedGraph::new(
        "nodeCountTest".to_string(),
        "rootJob".to_string(),
        StrMap::new(),
        StrMap::new(),
        StrMap::new(),
        &def_graph,
    )
    .unwrap();

    let instantiated_node_count = instantiated_graph.node_indices().len();
    let def_graph_node_count = def_graph.node_count();

    assert_eq!(
        instantiated_node_count, def_graph_node_count,
        "InstantiatedGraph should have the same node count as the underlying DefGraph"
    );
    assert_eq!(instantiated_graph.node_count(), def_graph_node_count);
}

#[test]
fn should_retrieve_correct_node_attributes_for_all_nodes() {
    let mut def_graph = DefGraph::new(
        "RootSpec".to_string(),
        vec!["in1".to_string()],
        vec!["out1".to_string()],
    );
    def_graph.ensure_inlet_and_stream(port("SpecA", "dummy"), false);

    let instantiated_graph = InstantiatedGraph::new(
        "attrTest".to_string(),
        "rootJob".to_string(),
        StrMap::new(),
        StrMap::new(),
        StrMap::new(),
        &def_graph,
    )
    .unwrap();

    for node_id in instantiated_graph.node_indices() {
        let node = instantiated_graph.node_weight(node_id).unwrap();
        assert!(
            !node.label.is_empty(),
            "Expected the node to have a non-empty label"
        );

        match node.node_type {
            InstantiatedNodeType::RootJob | InstantiatedNodeType::Job => {
                assert!(
                    node.job_id.is_some(),
                    "Expected job_id to be present for a job or root-job node"
                );
            }
            _ => {}
        }
    }
}
