[package]
name = "mochi"
version = "0.1.0"
edition = "2021"
publish = false

[dependencies]
globset = "0.4"
dirs = "*"
rusqlite = { version = "*", features = ["bundled"] }
tokio = { version = "1", features = ["full"] }
reqwest = { version = "0.12", default-features = false, features = ["json", "stream", "rustls-tls"] }
serde = { version = "1", features = ["derive"] }
serde_json = "1"
clap = { version = "4", features = ["derive"] }
which = "*"
ignore = "0.4"
futures = "0.3"
eventsource-stream = "0.2"
uuid = { version = "1", features = ["v4"] }
anyhow = "1"
