[package]
name = "pigeon"
version = "0.1.0"
edition = "2021"
publish = false

[dependencies]
dirs = "5"
mlua = { version = "0.10", features = ["lua54", "vendored", "send"] }
reqwest = "0.12"
serde_json = "1"
tokio = { version = "1", features = ["rt-multi-thread", "net", "time"] }
