//! Topology core of a dataflow platform: pipeline definitions as typed
//! directed graphs, and the job graphs derived from them for one context.
//!
//! `systems::def_graph` holds the definition graph and `systems::instantiated_graph`
//! the graph of jobs and streams that a definition stands for in one context.
//! Both keep their edges in a `petgraph` graph, behind `systems::topology`.
//! Every operation states its result over the mathematical model of the graph
//! (`systems::def_graph_model`, and the model half of
//! `systems::instantiated_graph`), and `systems::laws` proves what holds of the
//! operations together.

pub mod systems;
