[package]
name = "usbip_usbd"
version = "0.1.0"
edition = "2021"
publish = false

[dependencies]
bytes = "1"
futures = "0.3"
tokio = { version = "1", features = ["net", "sync", "rt"] }
tokio-util = { version = "0.7", features = ["codec"] }
usb-device = "0.3"
