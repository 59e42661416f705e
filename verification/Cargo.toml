[package]
name = "chatconcise"
version = "0.1.0"
edition = "2021"
publish = false

[dependencies]
base64 = "*"
whoami = "*"
term_size = "*"
serde = { version = "*", features = ["derive"] }
serde_json = "*"
reqwest = { version = "*", default-features = false, features = ["blocking", "json"] }
clap = { version = "*", features = ["derive"] }
dialoguer = "*"
atty = "*"
