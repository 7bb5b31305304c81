[package]
name = "forty_two_tools"
version = "0.1.4"
edition = "2021"
publish = false

[dependencies]
chrono = "0.4"
regex = "1"
serde = { version = "1", features = ["derive"] }
serde_json = "1"
tokio = { version = "1", features = ["fs", "io-std", "io-util", "macros", "process", "rt-multi-thread", "sync"] }
tower-lsp = "0.20"
zed_extension_api = "*"
