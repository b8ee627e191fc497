[package]
name = "rocoknight"
version = "0.1.0"
edition = "2021"
publish = false

[dependencies]
anyhow = "=1.0.104"
byteorder = "=1.5.0"
log = "=0.4.34"
serde = { version = "=1.0.229", features = ["derive"] }
serde_json = "=1.0.154"
tauri-utils = { version = "2", default-features = false }
thiserror = "=1.0.69"
tokio = { version = "=1.54.1", default-features = false, features = ["sync", "time", "macros", "rt"] }
tracing = "=0.1.44"
tracing-appender = "=0.2.5"
tracing-log = "=0.2.0"
tracing-subscriber = { version = "=0.3.23", features = ["env-filter"] }
url = "=2.5.8"
webview2-com = "0.38"
windows = { version = "0.61", features = ["Win32_Foundation", "Win32_UI_WindowsAndMessaging", "Win32_UI_HiDpi", "Win32_System_Threading", "Win32_System_Com", "Win32_Security"] }
