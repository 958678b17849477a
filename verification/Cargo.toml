[package]
name = "web_radio"
version = "0.1.0"
edition = "2021"
publish = false

[dependencies]
bytes = "*"
mlua = { version = "*", features = ["lua54", "vendored"] }
rand = "*"
serde = { version = "*", features = ["derive"] }
serde_json = "*"
tokio = { version = "*", features = ["sync", "rt-multi-thread", "macros", "net", "io-util", "time"] }
