[package]
name = "truegear_link"
version = "0.1.0"
edition = "2021"
publish = false

[dependencies]
base64 = "0.22"
btleplug = "*"
clap = { version = "4", features = ["derive"] }
futures = "0.3"
futures-util = "0.3"
serde = { version = "1", features = ["derive"] }
serde_json = "1"
tokio = { version = "1", features = ["rt-multi-thread", "macros", "signal", "net", "sync", "io-util", "time"] }
tokio-tungstenite = "*"
tracing = "0.1"
tracing-subscriber = "0.3"
uuid = "1"
