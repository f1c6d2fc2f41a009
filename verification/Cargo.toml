[package]
name = "porrima"
version = "0.1.0"
edition = "2021"
publish = false

[dependencies]
encoding_rs = "0.8"
base64 = "0.22"
serde = { version = "1", features = ["derive"] }
serde_json = "1"
chrono = { version = "0.4", features = ["serde"] }
uuid = { version = "1", features = ["v4"] }
rusqlite = { version = "*", features = ["bundled"] }
lofty = "*"
walkdir = "2"
image = { version = "*", default-features = false, features = ["png", "jpeg"] }
reqwest = { version = "*", default-features = false, features = ["json"] }
thiserror = "*"
tracing = "*"

[dev-dependencies]
tempfile = "*"
