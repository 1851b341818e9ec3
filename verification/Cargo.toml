[package]
name = "codeexec"
version = "0.1.0"
edition = "2021"
publish = false

[dependencies]
axum = "0.6"
lazy_static = "1"
nix = { version = "0.29", features = ["resource", "user"] }
serde_json = "1"
sys-info = "0.9"
tokio = { version = "1", features = ["full"] }
