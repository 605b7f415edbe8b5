[package]
name = "pact_core"
version = "0.1.0"
edition = "2021"
publish = false

[dependencies]
regex = "=1.13.1"
serde_json = { version = "=1.0.154", features = ["preserve_order"] }
url = "=2.5.8"
uuid = "=1.29.0"
itertools = "=0.12.1"
http = "=0.2.12"
hyper = { version = "=0.14.32", features = ["full"] }
tokio = { version = "=1.54.1", features = ["rt", "net", "time"] }
futures = "=0.3.34"
clap = "=2.34.0"
log = "=0.4.34"
simplelog = "=0.12.2"
env_logger = "=0.10.2"
fern = "=0.6.2"
libc = "=0.2.191"
