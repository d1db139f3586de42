[package]
name = "transactor_client"
version = "0.1.0"
edition = "2021"
publish = false

[dependencies]
serde = { version = "=1.0.229", features = ["derive"] }
serde_json = "=1.0.151"
url = "=2.5.8"
chrono = "=0.4.45"
rand = "=0.8.8"
ksuid = "=0.2.0"
uuid = "=1.27.0"
bytes = "=1.12.1"
secrecy = "=0.10.3"
futures = "=0.3.34"
tokio = { version = "=1.53.2", features = ["rt", "sync", "time", "macros"] }
tokio-stream = { version = "=0.1.19", features = ["sync"] }
reqwest = { version = "=0.13.5", default-features = false, features = ["json"] }
reqwest-websocket = "=0.6.0"
reqwest-middleware = "=0.5.2"
reqwest-retry = "=0.9.1"
