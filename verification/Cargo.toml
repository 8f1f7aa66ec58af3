[package]
name = "eas_listener"
version = "0.1.0"
edition = "2021"
publish = false

[dependencies]
anyhow = "*"
base64 = "=0.23.1"
bytes = "*"
chrono = "=0.4.45"
crossbeam-channel = "*"
Inflector = "=0.11.4"
reqwest = { version = "=0.13.5", default-features = false, features = ["form", "multipart"] }
rubato = "=0.15.0"
sameold = "=0.6.0"
serde = { version = "*", features = ["derive"] }
serde_json = "*"
symphonia = { version = "=0.5.5", features = ["mp3"] }
tempfile = "*"
tokio = { version = "*", features = ["full"] }
tracing = "*"
