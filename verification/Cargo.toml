[package]
name = "swayevents"
version = "0.1.0"
edition = "2021"
publish = false

[dependencies]
swayipc-async = "*"
tokio = { version = "*", features = ["rt", "rt-multi-thread", "macros", "sync"] }
futures-util = "*"
notify = "*"
serde = { version = "*", features = ["derive"] }
toml = "*"
dirs = "*"
