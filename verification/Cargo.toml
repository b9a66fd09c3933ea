[package]
name = "ltsc_workspace"
version = "0.1.0"
edition = "2021"
publish = false

[dependencies]
anyhow = "1"
chrono = "0.4"
serde = { version = "1", features = ["derive"] }
serde_json = "1"
eframe = { version = "0.37", default-features = false, features = ["default_fonts", "glow", "x11"] }
windows = { version = "*", features = ["Foundation", "Management_Deployment", "Win32_System_WinRT"] }
windows-collections = "*"
winreg = "*"
