[package]
name = "x2ssh"
version = "0.1.0"
edition = "2021"
publish = false

[dependencies]
anyhow = "1"
bytes = "1"
clap = { version = "4", features = ["derive"] }
fast-socks5 = "*"
ipnet = "2"
libc = "0.2"
rtnetlink = "*"
russh = "*"
serde = { version = "1", features = ["derive"] }
tokio = { version = "1", features = ["full"] }
toml = "*"
tracing = "0.1"
tracing-subscriber = "0.3"
tun-rs = { version = "*", features = ["async"] }
