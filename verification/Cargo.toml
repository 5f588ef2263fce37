[package]
name = "route_guide"
version = "0.1.0"
edition = "2021"
publish = false

[dependencies]
http = "0.2"
prost = "0.6"
serde = { version = "1", features = ["derive"] }
serde_json = "1"
tonic = "0.3"
