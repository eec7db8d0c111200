[package]
name = "vnc_server"
version = "0.1.0"
edition = "2021"
publish = false

[dependencies]
anyhow = "1"
bytes = "1"
des = "*"
enigo = "*"
flate2 = "1"
num-prime = "*"
pam-client = "*"
png = "*"
rand = "*"
rfb-encodings = "*"
ron = "*"
scrap = "*"
serde = { version = "1", features = ["derive"] }
tokio = { version = "1", features = ["full"] }
tokio-rustls = "*"
tracing = "0.1"
tracing-subscriber = { version = "0.3", features = ["env-filter"] }
uuid = { version = "1", features = ["v7", "serde"] }
uzers = "*"
xkeysym = "*"
xxhash-rust = { version = "*", features = ["xxh3"] }
