[package]
name = "sherry"
version = "0.1.0"
edition = "2021"
publish = false

[dependencies]
glob = "*"
seahash = "*"
serde = { version = "*", features = ["derive"] }
serde_json = "*"
clap = { version = "*", features = ["derive"] }
home = "*"
path-clean = "*"
tokio = { version = "*", features = ["rt-multi-thread", "macros", "fs", "io-util", "time", "sync"] }
tokio-util = { version = "*", features = ["codec"] }
futures = "*"
reqwest = { version = "*", default-features = false, features = ["json", "multipart", "stream"] }
rust_socketio = { version = "*", features = ["async"] }
notify = "*"
notify-debouncer-full = "*"
log = "*"
log4rs = "*"
chrono = "*"
