[package]
name = "svc_adapter"
version = "0.1.0"
edition = "2021"
publish = false

[dependencies]
rumqttc = { version = "*", default-features = false }
embedded-svc = "*"
log = "*"
