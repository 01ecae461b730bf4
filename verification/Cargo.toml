[package]
name = "query_graph"
version = "0.1.0"
edition = "2021"
publish = false

[dependencies]
bigdecimal = "0.3"
chrono = { version = "0.4", default-features = false, features = ["std"] }
enumflags2 = "0.7"
futures = "0.3"
indexmap = "2"
serde = { version = "1", features = ["derive"] }
serde_json = "1"
tokio = { version = "1", features = ["rt", "macros"] }
tracing = "0.1"
