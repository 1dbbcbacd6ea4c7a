[package]
name = "gst-dots-viewer"
version = "0.1.0"
edition = "2021"
publish = false

[dependencies]
actix = "=0.13.5"
actix-web = "=4.18.1"
actix-web-actors = "=4.3.1"
actix-web-static-files = "=4.1.1"
anyhow = "=1.0.104"
clap = { version = "=4.6.7", features = ["derive"] }
notify = "=8.2.0"
once_cell = "=1.21.4"
opener = "=0.9.0"
serde_json = "=1.0.154"
single-instance = "=0.3.3"
static-files = "=0.2.5"
tokio = { version = "=1.54.1", features = ["rt-multi-thread", "time"] }
tracing = "=0.1.44"
tracing-subscriber = { version = "=0.3.23", features = ["env-filter"] }
windows = { version = "=0.58.0", features = ["Win32_Foundation", "Win32_UI_Shell"] }
