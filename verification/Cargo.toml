[package]
name = "awuba_iot"
version = "0.1.0"
edition = "2021"
publish = false

[dependencies]
anyhow = "=1.0.104"
axum = { version = "=0.8.9", features = ["ws"] }
btsensor = "=0.1.2"
config = "=0.15.27"
hashlink = "=0.12.2"
prost = "=0.14.4"
rumqttc = "=0.25.1"
serde = { version = "=1.0.229", features = ["derive"] }
serde_json = "=1.0.154"
tokio = { version = "=1.54.1", features = ["full"] }
tower-http = { version = "=0.7.1", features = ["trace"] }
tracing = "=0.1.44"
tracing-subscriber = { version = "=0.3.23", features = ["env-filter"] }
trouble-host = "=0.8.0"
