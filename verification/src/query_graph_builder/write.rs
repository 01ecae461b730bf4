//! The builders of writes.

pub mod connect;
pub mod limit;
pub mod nested;
pub mod update;
pub mod utils;
pub mod write_args_parser;
