[package]
name = "can_usb_kvaser"
version = "0.1.0"
edition = "2021"
publish = false

[dependencies]
bytes = "=1.12.1"
tokio-util = { version = "=0.7.20", features = ["codec"] }
futures = "=0.3.34"
nusb = { version = "=0.2.9", features = ["tokio"] }
tracing = "=0.1.44"

[dev-dependencies]
deku = "=0.20.3"
