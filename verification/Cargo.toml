[package]
name = "zyntax"
version = "0.1.0"
edition = "2021"
publish = false

[dependencies]
similar = "2"
serde = { version = "1", features = ["derive"] }
serde_json = "1"
thiserror = "2"
rusqlite = { version = "*", features = ["bundled"] }
directories = "5"
arboard = { version = "3", default-features = false }
reqwest = { version = "0.12", default-features = false, features = ["json", "rustls-tls"] }
tokio = { version = "1", features = ["rt", "macros", "time", "sync"] }
tokio-util = "0.7"
async-trait = "0.1"
time = "0.3"
tracing = "0.1"
