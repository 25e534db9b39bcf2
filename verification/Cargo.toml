[package]
name = "rust_iiif"
version = "0.1.0"
edition = "2021"
publish = false

[dependencies]
axum = "0.8"
config = "0.14"
libvips-rs = "*"
moka = { version = "0.12", features = ["future"] }
reqwest = { version = "0.12", default-features = false, features = ["rustls-tls"] }
serde = { version = "1", features = ["derive"] }
sha2 = "0.10"
tokio = { version = "1", features = ["full"] }
tracing = "0.1"
tracing-subscriber = { version = "0.3", features = ["env-filter"] }
