[package]
name = "openshell_supervisor_network"
version = "0.1.0"
edition = "2021"
publish = false

[dependencies]
libc = "0.2"
miette = "7"
prost-types = "0.14"
regorus = { version = "=0.9.1", default-features = false, features = ["std", "arc", "glob", "yaml"] }
serde = { version = "1", features = ["derive"] }
serde_json = "1"
serde_yml = "0.0.13"
tokio = { version = "1", features = ["io-util", "sync", "time", "rt"] }
tower-mcp-types = "0.25"
tracing = "0.1"

[dev-dependencies]
tempfile = "3"
