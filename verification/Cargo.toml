[package]
name = "echomesh_relay"
version = "0.1.0"
edition = "2021"
publish = false

[dependencies]
bytes = "=1.12.1"
hex = "=0.4.3"
hmac = "=0.12.1"
rand = "=0.8.8"
sha2 = "=0.10.9"
snow = "=0.10.0"
thiserror = "=1.0.69"
tokio = { version = "=1.54.1", features = ["full"] }
tokio-util = { version = "=0.7.20", features = ["codec"] }
tracing = "=0.1.44"
tracing-subscriber = { version = "=0.3.23", features = ["env-filter"] }
