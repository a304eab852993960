[package]
name = "js2wasm"
version = "0.1.0"
edition = "2021"
publish = false

[dependencies]
anyhow = "1"
binaryen = "*"
dirs = "*"
reqwest = { version = "*", default-features = false, features = ["rustls-tls"] }
semver = "1"
serde = { version = "1", features = ["derive"] }
serde_json = "1"
structopt = "0.3"
tokio = { version = "1", features = ["macros", "rt-multi-thread"] }
wizer = "*"
