[package]
name = "sarusctl"
version = "0.1.0"
edition = "2021"
publish = false

[dependencies]
clap = { version = "4", features = ["derive"] }
nu-ansi-term = "*"
serde = { version = "1", features = ["derive"] }
serde_json = "1"
tracing = "0.1"
tracing-subscriber = "0.3"
users = "*"
uuid = { version = "1", features = ["v4"] }
yaml_serde = "*"
