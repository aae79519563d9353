[package]
name = "speech_pipeline"
version = "0.1.0"
edition = "2021"
publish = false

[dependencies]
anyhow = "1"
hound = "3.5"
num_cpus = "1"
once_cell = "1"
reqwest = "0.12"
serde = { version = "1", features = ["derive"] }
tokio = { version = "1", features = ["rt-multi-thread", "sync", "macros"] }
vosk = "0.3"
whisper-rs = "0.15"
zip = "*"
