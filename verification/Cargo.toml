[package]
name = "frame_pipeline"
version = "0.1.0"
edition = "2021"
publish = false

[dependencies]
eframe = { version = "0.29", default-features = false, features = ["glow", "default_fonts", "x11"] }
once_cell = "1"
regex = "1"
tokio = { version = "1", features = ["rt-multi-thread", "macros", "sync"] }
ureq = "2"
winapi = { version = "0.3", features = ["winbase"] }
