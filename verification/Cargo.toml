[package]
name = "haptic_audio"
version = "0.1.0"
edition = "2021"
publish = false

[dependencies]
rustfft = "6"
anyhow = "1"
cpal = "0.15"
serde = { version = "1", features = ["derive"] }
serde_json = "1"
tokio = { version = "1", features = ["rt-multi-thread", "macros", "time", "signal", "sync"] }
