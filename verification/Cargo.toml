[package]
name = "repostats"
version = "0.1.0"
edition = "2021"
publish = false

[dependencies]
axum = "*"
tokio = { version = "*", features = ["rt-multi-thread", "macros", "net"] }
reqwest = { version = "*", default-features = false }
serde = { version = "*", features = ["derive"] }
tempfile = "*"
tokei = "*"
tower-http = { version = "*", features = ["cors"] }
