[package]
name = "pretxsim"
version = "0.1.0"
edition = "2021"
publish = false

[dependencies]
revm = { version = "14", default-features = false, features = ["std"] }
hex = "0.4"
serde = { version = "1", features = ["derive"] }
serde_json = "1"
reqwest = { version = "0.12", default-features = false, features = ["json", "rustls-tls"] }
tokio = { version = "1", features = ["full"] }
jsonrpsee = { version = "0.24", features = ["server", "macros"] }
