[package]
name = "ironprose"
version = "0.1.0"
edition = "2021"
publish = false

[dependencies]
regex-lite = "*"
serde = { version = "1", features = ["derive"] }
serde_json = "1"
clap = { version = "4", features = ["derive", "env"] }
tokio = { version = "1", features = ["macros", "rt-multi-thread", "io-std", "fs"] }
reqwest = { version = "*", default-features = false, features = ["json", "rustls-tls"] }
rmcp = { version = "*", features = ["server", "transport-io"] }
tracing = "*"
chrono = "*"

[dev-dependencies]
tempfile = "*"
