[package]
name = "sidestacker"
version = "0.1.0"
edition = "2021"
publish = false

[dependencies]
futures = "*"
rusqlite = { version = "*", features = ["bundled"] }
serde = { version = "*", features = ["derive"] }
serde_json = "*"
structopt = "*"
tokio = { version = "*", features = ["full"] }
tokio-util = { version = "*", features = ["codec"] }
