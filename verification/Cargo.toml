[package]
name = "mdns"
version = "0.1.0"
edition = "2021"
publish = false

[dependencies]
dns-parser = "*"
tokio = { version = "*", features = ["net", "time", "rt"] }
tokio-stream = "*"
futures-core = "*"
futures-util = "*"
async-stream = "*"
async-trait = "*"
log = "*"
socket2 = "*"
multicast-socket = "*"
serde = { version = "*", features = ["derive"] }
thiserror = "*"
