[package]
name = "acronymia"
version = "0.1.0"
edition = "2021"
publish = false

[dependencies]
rand = "0.8"
serde = { version = "1", features = ["derive"] }
serde_json = "1"
tokio = { version = "1", features = ["macros", "rt-multi-thread", "sync", "time"] }
actix-web = "4"
actix-ws = "0.3"
futures-util = "0.3"
uuid = { version = "1", features = ["v4"] }
