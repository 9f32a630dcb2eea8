[package]
name = "martty"
version = "0.1.0"
edition = "2021"
publish = false

[dependencies]
serde_json = { version = "=1.0.154", features = ["preserve_order"] }
yaml-rust2 = "=0.13.0"
unicode-width = "=0.2.3"
crossterm = "=0.29.0"
libc = "=0.2.191"
agent-client-protocol = { version = "=5.0.0", features = ["unstable_protocol_v2"] }
