//! The builders that turn a parsed request into nodes and edges of a query graph.

pub mod read;
pub mod write;
