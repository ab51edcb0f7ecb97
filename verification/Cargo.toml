[package]
name = "x870e_lcd"
version = "0.1.0"
edition = "2021"
publish = false

[dependencies]
jpeg-encoder = "0.6"
image = { version = "0.25", default-features = false, features = ["png", "jpeg", "gif", "webp", "bmp"] }
chrono = "0.4"
serde = { version = "1", features = ["derive"] }
serde_json = "1"
anyhow = "1"
thiserror = "2"
clap = { version = "4", features = ["derive"] }
tracing = "0.1"
tracing-subscriber = { version = "0.3", features = ["env-filter"] }
ctrlc = "3"
sysinfo = "0.33"
hidapi = "2"
rusb = "0.9"
