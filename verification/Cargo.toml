[package]
name = "pkg_extract"
version = "0.1.0"
edition = "2021"
publish = false

[dependencies]
async-compression = { version = "0.4", features = ["tokio", "bzip2"] }
bytes = "1"
bzip2 = "*"
flate2 = "1"
futures-util = "0.3"
serde = { version = "1", features = ["derive"] }
strum = "0.26"
strum_macros = "0.26"
tar = "0.4"
tempfile = "3"
tokio = { version = "1", features = ["rt", "sync", "fs", "io-util", "macros"] }
tokio-util = { version = "0.7", features = ["io"] }
tracing = "0.1"
xz2 = "0.1"
zstd = "0.13"
