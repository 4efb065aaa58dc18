[package]
name = "depup"
version = "0.1.0"
edition = "2021"
publish = false

[dependencies]
clap = "*"
color-eyre = "*"
indexmap = { version = "*", features = ["std", "serde"] }
reqwest = { version = "*", default-features = false, features = ["json", "rustls-tls"] }
serde = { version = "*", features = ["derive"] }
serde_json = "*"
tokio = { version = "*", features = ["macros", "rt-multi-thread"] }
tracing-subscriber = { version = "*", features = ["env-filter"] }
tracing-tree = "*"
