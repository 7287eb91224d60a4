[package]
name = "iron_sendme"
version = "0.1.0"
edition = "2021"
publish = false

[dependencies]
anyhow = "=1.0.104"
iroh = { version = "=1.4.1", default-features = false, features = ["tls-ring"] }
iroh-blobs = { version = "=0.104.0", default-features = false, features = ["fs-store"] }
serde = { version = "=1.0.229", features = ["derive"] }
tempfile = "=3.27.0"
tokio = { version = "=1.54.1", features = ["sync", "rt-multi-thread", "macros"] }
tracing = "=0.1.44"
tracing-subscriber = { version = "=0.3.23", features = ["env-filter", "fmt"] }
walkdir = "=2.5.0"
