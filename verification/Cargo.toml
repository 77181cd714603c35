[package]
name = "hudhub"
version = "0.1.0"
edition = "2021"
publish = false

[dependencies]
zip = "=8.6.0"
chrono = "=0.4.45"
sevenz-rust = "=0.6.1"
unrar = "=0.5.8"
reqwest = { version = "=0.12.28", default-features = false, features = ["rustls-tls"] }
tokio = { version = "=1.53.2", features = ["rt-multi-thread", "macros", "fs"] }
fs_extra = "=1.3.0"
tempdir = "=0.3.7"
walkdir = "=2.5.0"
serde = { version = "=1.0.229", features = ["derive"] }
bincode = "=1.3.3"
platform-dirs = "=0.3.0"
steamlocate = "=2.1.1"
