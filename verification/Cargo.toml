[package]
name = "azuracast_engine"
version = "0.1.0"
edition = "2021"
publish = false

[dependencies]
axum = "0.7"
base64 = "0.22"
ebur128 = "0.1"
hound = "3"
reqwest = { version = "0.12", default-features = false, features = ["json"] }
rubato = "0.15"
serde = { version = "1", features = ["derive"] }
serde_json = "1"
symphonia = { version = "0.5", features = ["aac", "isomp4", "mp3"] }
tokio = { version = "1", features = ["full"] }
toml = "0.8"
tracing = "0.1"
tracing-subscriber = { version = "0.3", features = ["env-filter"] }
