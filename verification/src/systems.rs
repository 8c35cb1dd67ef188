pub mod error;
pub mod text;
pub mod str_map;
pub mod select;
pub mod topology;
pub mod connectivity;
pub mod def_graph_utils;
pub mod def_graph_model;
pub mod def_graph;
pub mod instantiated_graph;
pub mod laws;
