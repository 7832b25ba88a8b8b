[package]
name = "green_vita"
version = "0.1.0"
edition = "2021"
publish = false

[dependencies]
anyhow = "1"
bytes = "1"
crossbeam-channel = "0.5"
egui = "0.31"
h264-reader = "0.9"
rtc = "0.20"
rtc-media = "0.20"
sdl2 = "0.38"
serde = { version = "1", features = ["derive"] }
serde_json = "1"
tokio = { version = "1", features = ["rt", "sync", "time", "net"] }
vita-newlib-shims = "0.3"
vitasdk-sys = "0.3"
