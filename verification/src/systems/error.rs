//! The ways in which an operation on a graph fails.

use vstd::prelude::*;
use vstd::string::StringExecFns;

verus! {

/// Why an operation on a graph was refused. Every failure is returned to the
/// caller; none is retried or passed over.
#[derive(Debug, PartialEq, Eq, Clone, Copy, Structural)]
pub enum GraphError {
    /// No spec node has the given name and label.
    SpecNotFound,
    /// No root spec node has the given name.
    RootSpecNotFound,
    /// The spec has no inlet or outlet with the given tag.
    PortNotFound,
    /// A direction other than `in` and `out`.
    InvalidDirection,
    /// An outlet already leads to more than one stream.
    AmbiguousStreamFanout,
    /// A node handle that the graph does not hold.
    NodeNotFound,
    /// An edge handle that the graph does not hold.
    EdgeNotFound,
    /// Serialized input that is malformed or does not fit together.
    DeserializationError,
    /// A node without the identity that its translation needs.
    InternalConsistency,
}

impl GraphError {
    /// The sentence that describes the failure.
    pub open spec fn description(self) -> Seq<char> {
        match self {
            GraphError::SpecNotFound => "spec node not found"@,
            GraphError::RootSpecNotFound => "root spec node not found"@,
            GraphError::PortNotFound => "no inlet or outlet with this tag"@,
            GraphError::InvalidDirection => "direction is neither in nor out"@,
            GraphError::AmbiguousStreamFanout => "more than one stream leaves the outlet"@,
            GraphError::NodeNotFound => "node handle does not resolve"@,
            GraphError::EdgeNotFound => "edge handle does not resolve"@,
            GraphError::DeserializationError => "serialized graph is malformed or inconsistent"@,
            GraphError::InternalConsistency => "a node lacks the identity that its translation needs"@,
        }
    }

    /// A sentence that describes the failure.
    pub fn message(&self) -> (r: String)
        ensures
            r@ == self.description(),
    {
        match self {
            GraphError::SpecNotFound => String::from_str("spec node not found"),
            GraphError::RootSpecNotFound => String::from_str("root spec node not found"),
            GraphError::PortNotFound => String::from_str("no inlet or outlet with this tag"),
            GraphError::InvalidDirection => String::from_str("direction is neither in nor out"),
            GraphError::AmbiguousStreamFanout => String::from_str(
                "more than one stream leaves the outlet",
            ),
            GraphError::NodeNotFound => String::from_str("node handle does not resolve"),
            GraphError::EdgeNotFound => String::from_str("edge handle does not resolve"),
            GraphError::DeserializationError => String::from_str(
                "serialized graph is malformed or inconsistent",
            ),
            GraphError::InternalConsistency => String::from_str(
                "a node lacks the identity that its translation needs",
            ),
        }
    }
}

} // verus!
