[package]
name = "streamhead"
version = "0.1.0"
edition = "2021"
publish = false

[dependencies]
bytes = "=1.12.1"
gcd = "=2.3.0"
h264-reader = "=0.5.0"
byteorder = "=1.5.0"
four-cc = "=0.1.0"
anyhow = "=1.0.104"
async-trait = "=0.1.92"
async-channel = "=1.9.0"
futures = "=0.3.34"
tracing = "=0.1.44"
tokio = { version = "=1.54.1", features = ["net", "io-util", "sync", "fs", "rt", "time"] }
rml_rtmp = "=0.6.1"
failure = "=0.1.8"
flvparse = "=0.1.0"
chrono = "=0.4.45"
fastrand = "=1.9.0"
rand = "=0.8.8"
serde_json = "=1.0.154"
argon2 = "=0.4.1"
comrak = { version = "*", default-features = false }
