[package]
name = "teams-whisperer"
version = "0.1.0"
edition = "2021"
publish = false

[dependencies]
which = "*"
anyhow = "1"
clap = { version = "4", features = ["derive"] }
dirs = "*"
symphonia = { version = "0.5", features = ["all"] }
rubato = "*"
audioadapter-buffers = "*"
tracing = "0.1"
tracing-subscriber = { version = "0.3", features = ["env-filter"] }
indicatif = "*"
tokio = { version = "1", features = ["macros", "rt-multi-thread"] }
hf-hub = { version = "*", default-features = false, features = ["tokio"] }
yt-dlp = "*"
whisper-rs = "*"
whisper-rs-sys = "*"
