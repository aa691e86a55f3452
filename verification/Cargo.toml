[package]
name = "datafusion_distributed"
version = "0.1.0"
edition = "2021"
publish = false

[dependencies]
arrow-flight = "58"
arrow-ipc = "58"
arrow-select = "58"
async-trait = "=0.1.92"
datafusion = { version = "=54.1.0", default-features = false }
datafusion-proto = { version = "=54.1.0", default-features = false }
futures = "=0.3.34"
http = "=1.5.0"
moka = { version = "=0.12.16", features = ["future"] }
prost = "=0.14.4"
rand = "=0.9.5"
tokio = { version = "=1.54.1", features = ["full"] }
tokio-stream = { version = "=0.1.19", features = ["sync"] }
tonic = "=0.14.9"
url = "=2.5.8"
uuid = "=1.29.0"
