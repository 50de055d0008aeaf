[package]
name = "xrpl_packet_interceptor"
version = "0.1.0"
edition = "2021"
publish = false

[dependencies]
hex = "0.4"
httparse = "1"
serde_json = "1"
serde = { version = "1", features = ["derive"] }
bytes = "1"
tokio = { version = "1", features = ["full"] }
tokio-openssl = "0.6"
openssl = "0.10"
bollard = "0.17"
futures-util = "0.3"
tokio-stream = "0.1"
tonic = "0.12"
prost = "0.13"
chrono = "0.4"
ctrlc = "3"
env_logger = "0.11"
log = "0.4"
lazy_static = "1"
