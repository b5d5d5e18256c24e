[package]
name = "ftpoq"
version = "0.1.0"
edition = "2021"
publish = false

[dependencies]
unicode-segmentation = "1"
argon2 = "0.5"
regex = "1"
anyhow = "1"
async-trait = "0.1"
async-channel = "2"
dyn-clone = "1"
futures = "0.3"
once_cell = "1"
tokio = { version = "1", features = ["full"] }
tokio-util = "0.7"
tokio-rustls = "0.26"
rustls = "0.23"
quinn = "0.11"
s2n-quic = "1"
sqlx = { version = "0.8", default-features = false, features = ["sqlite", "runtime-tokio"] }
config = { version = "0.14", default-features = false, features = ["toml"] }
strum = { version = "0.26", features = ["derive"] }
thiserror = "1"
tracing = "0.1"
tracing-attributes = "0.1"
zeroize = { version = "1", features = ["derive"] }
