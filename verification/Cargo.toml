[package]
name = "locafetch"
version = "0.1.0"
edition = "2021"
publish = false

[dependencies]
serde = { version = "1", features = ["derive"] }
serde_json = "1"
rusqlite = { version = "*", features = ["bundled"] }
walkdir = "2"
notify = "*"
tokio = { version = "1", features = ["time"] }
arboard = "3"
windows = { version = "*", features = ["Win32_UI_Shell", "Win32_UI_Shell_Common", "Win32_Foundation"] }
winreg = "*"
