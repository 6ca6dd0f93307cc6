[package]
name = "fast_rustup"
version = "0.1.0"
edition = "2021"
publish = false

[dependencies]
anyhow = "1"
bytes = "1"
clap = { version = "4", features = ["derive"] }
home = "0.5"
rayon = "1"
reqwest = { version = "0.12", default-features = false, features = ["rustls-tls"] }
tar = "0.4"
target-triple = "0.1"
tikv-jemallocator = "0.6"
tokio = { version = "1", features = ["macros", "rt-multi-thread", "sync"] }
url = "2"
xz2 = "0.1"
