[package]
name = "codex_titlebar_meter"
version = "0.1.3"
edition = "2021"
publish = false

[dependencies]
anyhow = "1"
chrono = "0.4"
serde_json = "1"
windows-sys = { version = "0.59", features = ["Win32_Globalization"] }
