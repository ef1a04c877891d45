[package]
name = "radioware"
version = "0.1.0"
edition = "2021"
publish = false

[dependencies]
clap = { version = "4", features = ["derive", "env"] }
figment = { version = "0.10", features = ["toml", "env"] }
serde = { version = "1", features = ["derive"] }
mio = { version = "1", features = ["os-poll", "net"] }
signal-hook = "0.3"
tracing = "0.1"
