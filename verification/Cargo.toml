[package]
name = "ambient_context"
version = "0.1.0"
edition = "2021"
publish = false

[dependencies]
futures-core = "=0.3.34"
futures-sink = "=0.3.34"
log = "=0.4.34"
pin-project-lite = "=0.2.17"
sea-orm = { version = "=2.0.4", default-features = false }
tokio = { version = "=1.54.1", features = ["macros", "rt"] }
tonic = { version = "=0.14.6", default-features = false, features = ["codegen"] }
tower = "=0.5.3"
