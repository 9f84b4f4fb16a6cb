[package]
name = "ekilox"
version = "0.1.0"
edition = "2021"
publish = false

[dependencies]
bcrypt = "*"
bson = "2"
futures-util = "0.3"
hex = "0.4"
jwalk = "*"
lazy_static = "1"
mongodb = "3"
mountpoints = "*"
notify = "*"
rand = "0.8"
regex = "1"
serde = { version = "1", features = ["derive"] }
serde_json = "1"
tokio = { version = "1", features = ["sync", "net", "rt", "rt-multi-thread", "time"] }
tokio-tungstenite = "*"
uuid = { version = "1", features = ["v4"] }
