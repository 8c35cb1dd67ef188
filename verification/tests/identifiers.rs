use livestack_shared::systems::def_graph_utils::unique_spec_identifier;
use livestack_shared::systems::def_graph_utils::unique_stream_identifier;
use livestack_shared::systems::def_graph_utils::SpecTagInfo;
use livestack_shared::systems::error::GraphError;

fn port(spec_name: &str, tag: &str, label: Option<&str>) -> SpecTagInfo {
    SpecTagInfo {
        spec_name: spec_name.to_string(),
        tag: tag.to_string(),
        unique_spec_label: label.map(|l| l.to_string()),
    }
}

#[test]
fn spec_identifier_is_the_name_without_a_label() {
    assert_eq!(unique_spec_identifier("A".to_string(), None), "A");
}

#[test]
fn spec_identifier_carries_the_label_in_brackets() {
    assert_eq!(
        unique_spec_identifier("A".to_string(), Some("v1".to_string())),
        "A[v1]"
    );
}

#[test]
fn spec_identifier_drops_the_default_label() {
    assert_eq!(
        unique_spec_identifier("A".to_string(), Some("default_label".to_string())),
        "A"
    );
}

#[test]
fn spec_identifier_is_the_same_on_every_call() {
    let first = unique_spec_identifier("Worker".to_string(), Some("x".to_string()));
    let second = unique_spec_identifier("Worker".to_string(), Some("x".to_string()));
    assert_eq!(first, second);
    assert_eq!(first, "Worker[x]");
}

#[test]
fn stream_identifier_joins_both_sides() {
    assert_eq!(
        unique_stream_identifier(Some(port("A", "out", None)), Some(port("B", "in", None))),
        "A/out>>B/in"
    );
}

#[test]
fn stream_identifier_carries_labels_in_parentheses() {
    assert_eq!(
        unique_stream_identifier(
            Some(port("A", "out", Some("v1"))),
            Some(port("B", "in", Some("v2")))
        ),
        "A(v1)/out>>B(v2)/in"
    );
}

#[test]
fn stream_identifier_drops_the_default_label() {
    assert_eq!(
        unique_stream_identifier(
            Some(port("A", "out", Some("default_label"))),
            Some(port("B", "in", Some("default_label")))
        ),
        "A/out>>B/in"
    );
}

#[test]
fn stream_identifier_marks_an_absent_side() {
    assert_eq!(
        unique_stream_identifier(None, Some(port("B", "in", None))),
        "(*)>>B/in"
    );
    assert_eq!(
        unique_stream_identifier(Some(port("A", "out", None)), None),
        "A/out>>(*)"
    );
    assert_eq!(unique_stream_identifier(None, None), "(*)>>(*)");
}

#[test]
fn every_error_has_its_own_message() {
    let all = vec![
        GraphError::SpecNotFound,
        GraphError::RootSpecNotFound,
        GraphError::PortNotFound,
        GraphError::InvalidDirection,
        GraphError::AmbiguousStreamFanout,
        GraphError::NodeNotFound,
        GraphError::EdgeNotFound,
        GraphError::DeserializationError,
        GraphError::InternalConsistency,
    ];
    for (i, a) in all.iter().enumerate() {
        assert!(!a.message().is_empty());
        for (j, b) in all.iter().enumerate() {
            if i != j {
                assert_ne!(a.message(), b.message());
            }
        }
    }
    assert_eq!(GraphError::SpecNotFound.message(), "spec node not found");
}
