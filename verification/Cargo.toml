[package]
name = "wgnet"
version = "0.1.0"
edition = "2021"
publish = false

[dependencies]
base64 = "*"
serde = { version = "*", features = ["derive"] }
serde_json = "*"
serde_yaml = "*"
libc = "*"
netlink-sys = "*"
clap = { version = "*", features = ["derive"] }
wireguard-control = "*"
