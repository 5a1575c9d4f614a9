[package]
name = "iconcraft"
version = "0.1.0"
edition = "2021"
publish = false

[dependencies]
base64 = "=0.22.1"
dirs = "=6.0.0"
uuid = { version = "=1.29.0", features = ["v4"] }
image = { version = "=0.25.10", default-features = false, features = ["png", "ico"] }
serde = { version = "=1.0.229", features = ["derive"] }
serde_json = "=1.0.154"
objc2 = "=0.6.5"
objc2-app-kit = { version = "=0.3.2", features = ["NSImage", "NSWorkspace"] }
objc2-foundation = { version = "=0.3.2", features = ["NSString"] }
windows-sys = { version = "=0.59.0", features = ["Win32_UI_Shell"] }
winreg = "=0.55.0"
