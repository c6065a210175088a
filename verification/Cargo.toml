[package]
name = "embucket"
version = "0.1.0"
edition = "2021"
publish = false

[dependencies]
chrono = "=0.4.45"
url = "=2.5.8"
lru = "=0.19.0"
uuid = { version = "=1.29.0", features = ["v4"] }
jsonwebtoken = "=9.3.1"
serde = { version = "=1.0.229", features = ["derive"] }
serde_json = "=1.0.154"
base64 = "=0.22.1"
arrow-array = "=60.1.0"
arrow-cast = "=60.1.0"
arrow-schema = "=60.1.0"
arrow-ord = "=60.1.0"
arrow-select = "=60.1.0"
arrow-json = "=60.1.0"
arrow-ipc = "=60.1.0"
