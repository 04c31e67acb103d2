[package]
name = "dataflow_server"
version = "0.1.0"
edition = "2021"
publish = false

[dependencies]
serde = { version = "1", features = ["derive"] }
bincode = "1"
uuid = "1"
reqwest = { version = "0.12", default-features = false, features = ["blocking"] }
