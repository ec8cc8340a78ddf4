[package]
name = "rayhunter"
version = "0.1.0"
edition = "2021"
publish = false

[dependencies]
chrono = "*"
qrcode = "*"
image = "*"
tokio = { version = "*", features = ["fs", "io-util", "time", "rt", "macros"] }
libc = "*"
futures = "*"
log = "*"
thiserror = "*"
anyhow = "*"
serde = { version = "*", features = ["derive"] }
serde_json = "*"
