[package]
name = "pyappify"
version = "0.1.0"
edition = "2021"
publish = false

[dependencies]
anyhow = "1"
lazy_static = "1"
once_cell = "1"
tauri = { version = "2", default-features = false }
tokio = { version = "1", features = ["process", "io-util", "rt", "macros"] }
tracing = "0.1"
windows-sys = { version = "0.59", features = ["Win32_UI_Shell"] }
