[package]
name = "roundtable"
version = "0.1.0"
edition = "2021"
publish = false

[dependencies]
chrono = "0.4"
dirs = "5"
hostname = "0.4"
rand = "0.8"
serde = { version = "1", features = ["derive"] }
serde_json = "1"
socket2 = "0.5"
tokio = { version = "1", features = ["net", "sync", "time", "rt-multi-thread", "io-util", "fs"] }
