[package]
name = "brush"
version = "0.1.0"
edition = "2021"
publish = false

[dependencies]
chrono = "=0.4.45"
path-clean = "=1.0.1"
rand = "=0.9.5"
urlencoding = "=2.1.3"
serde = { version = "=1.0.229", features = ["derive"] }
thiserror = "=2.0.21"
clap = { version = "=4.6.7", features = ["derive"] }
dirs = "=7.0.0"
humantime = "2"
ply-rs = "0.1"
zip = { version = "2", default-features = false, features = ["deflate"] }
