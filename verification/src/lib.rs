//! A compiler from declarative record operations to graphs of primitive database operations,
//! and the state machine that executes such graphs in dependency order.
//!
//! A request arrives as a [`document::ParsedField`]. The builders under
//! [`query_graph_builder`] turn it into nodes and edges of a [`query_graph::QueryGraph`], against
//! the models of a [`schema::QuerySchema`]. An [`interpreter::Execution`] then says node by node
//! what is to be run against the connector, and takes in what the connector answers.
//! [`guarantees`] states what holds when the interpreter comes to the nodes that the builders
//! made.
//!
//! Beside this stand what the request handler needs to match the queries of a compacted batch
//! to their records ([`handler`], [`response_ir`]), the naming and typing rules of the SQL
//! schema ([`sql_schema_calculator`]), the operation mappings of the DMMF ([`dmmf`]), and the
//! choice of what setting a database up takes ([`qe_setup`]).

pub mod datetime;
pub mod decimal;
pub mod dmmf;
pub mod document;
pub mod error;
pub mod filter;
pub mod guarantees;
pub mod handler;
pub mod interpreter;
pub mod qe_setup;
pub mod query_ast;
pub mod query_graph;
pub mod query_graph_builder;
pub mod response_ir;
pub mod schema;
pub mod sql_schema_calculator;
pub mod value;
