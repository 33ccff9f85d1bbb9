[package]
name = "david"
version = "0.1.0"
edition = "2021"
publish = false

[dependencies]
clap = { version = "4", features = ["derive"] }
clap_complete = { version = "4", features = ["unstable-dynamic"] }
dialoguer = "*"
serde = { version = "1", features = ["derive"] }
shell-words = "1"
thiserror = "2"
toml = "*"
