[package]
name = "qusb"
version = "0.4.0"
edition = "2021"
publish = false

[dependencies]
bytes = "1.10"
zerocopy = "0.8"
fxhash = "0.2"
nohash-hasher = "0.2"
heapless = "0.8"
rand = "0.8"
quanta = "0.12"
rusb = "0.9"
nusb = "0.1"
flume = "0.11"
tokio = { version = "1.44", features = ["full"] }
tokio-util = "0.7"
quinn = "0.11"
rcgen = "0.13"
anyhow = "1"
clap = { version = "4.5", features = ["derive"] }
tracing = "0.1"
tracing-subscriber = { version = "0.3", features = ["env-filter"] }
thiserror = "2"
