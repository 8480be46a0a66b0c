[package]
name = "solver_pilot"
version = "0.1.0"
edition = "2021"
publish = false

[dependencies]
bb8 = "*"
chrono = "*"
futures = "*"
regex = "*"
russh = "*"
serde = { version = "1", features = ["derive"] }
serde_json = "1"
shellexpand = "*"
sqlx = { version = "*", default-features = false, features = ["sqlite", "runtime-tokio"] }
streaming-iterator = "*"
tokio = { version = "1", features = ["rt-multi-thread", "macros", "sync", "time", "process"] }
toml = "*"
tracing = "*"
tracing-subscriber = "*"
tree-sitter = "*"
tree-sitter-python = "*"
whoami = "*"
zeroize = "*"
