[package]
name = "logitray"
version = "0.3.0"
edition = "2021"
publish = false

[dependencies]
anyhow = "1"
dirs = "*"
hidapi = { version = "2.6", default-features = false, features = ["linux-native-basic-udev", "windows-native"] }
serde = { version = "1", features = ["derive"] }
tao = "*"
tauri-winrt-notification = "*"
toml = "*"
tracing = "0.1"
tracing-subscriber = { version = "0.3", features = ["env-filter"] }
tray-icon = "*"
ureq = { version = "3", default-features = false, features = ["native-tls"] }
winreg = "*"
