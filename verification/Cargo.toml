[package]
name = "rab-browser"
version = "0.1.0"
edition = "2021"
publish = false

[dependencies]
url = "2"
serde = { version = "1", features = ["derive"] }
serde_json = "1"
toml = "*"
tokio = { version = "1", features = ["rt", "sync", "time", "macros"] }
rmcp = { version = "*", features = ["server", "macros", "transport-io"] }
wry = "0.55"
tao = "*"
