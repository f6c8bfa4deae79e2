[package]
name = "att_fx"
version = "0.1.0"
edition = "2021"
publish = false

[dependencies]
rust_decimal = "=1.43.0"
flate2 = "=1.1.10"
serde = { version = "=1.0.229", features = ["derive"] }
serde_json = "=1.0.154"
chrono = "=0.4.45"
tokio = { version = "=1.54.1", features = ["macros", "rt-multi-thread", "time"] }
tokio-tungstenite = "=0.30.0"
futures-util = "=0.3.34"
reqwest = { version = "=0.13.5", default-features = false, features = ["json"] }
eventsource-client = "=0.17.5"
launchdarkly-sdk-transport = { version = "=0.1.4", features = ["hyper-rustls-webpki-roots"] }
