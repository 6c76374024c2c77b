[package]
name = "pcw_backend"
version = "0.1.0"
edition = "2021"
publish = false

[dependencies]
once_cell = "1"
anyhow = "1"
log = "0.4"
simple_logger = "*"
const_format = "0.2"
serde = { version = "1", features = ["derive"] }
serde_json = "1"
toml = "*"
tokio = { version = "1", features = ["full"] }
tokio-stream = { version = "0.1", features = ["net"] }
tonic = "*"
nix = { version = "*", features = ["signal"] }
