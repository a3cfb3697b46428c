[package]
name = "lulu"
version = "0.1.0"
edition = "2021"
publish = false

[dependencies]
serde = { version = "*", features = ["derive"] }
serde_json = "*"
uuid = { version = "*", features = ["v4"] }
tokio = { version = "*", features = ["rt-multi-thread", "process", "io-util", "sync", "time", "macros"] }
tokio-util = "*"
chrono = "*"
rusqlite = { version = "*", features = ["bundled"] }
nix = { version = "*", features = ["signal"] }
which = "*"
