[package]
name = "visgen_graph"
version = "0.1.0"
edition = "2021"
publish = false

[dependencies]
nannou_osc = "=0.20.0"
serde = { version = "=1.0.229", features = ["derive"] }
serde_json = "=1.0.151"
