[package]
name = "fish_s2"
version = "0.1.0"
edition = "2021"
publish = false

[dependencies]
axum = "=0.7.9"
byteorder = "=1.5.0"
candle-core = { version = "=0.11.1", default-features = false }
chrono = { version = "=0.4.45", default-features = false, features = ["clock", "std", "serde"] }
egui = { version = "=0.31.1", default-features = false, features = ["default_fonts"] }
reqwest = { version = "=0.12.28", default-features = false, features = ["blocking", "json"] }
serde = { version = "=1.0.229", features = ["derive"] }
serde_json = "=1.0.154"
tokenizers = { version = "=0.21.4", default-features = false, features = ["fancy-regex"] }
tokio = { version = "=1.54.1", features = ["rt-multi-thread", "net", "macros", "sync"] }
tracing-subscriber = { version = "=0.3.23", features = ["env-filter"] }
uuid = { version = "=1.29.0", features = ["v4", "serde"] }
walkdir = "=2.5.0"
