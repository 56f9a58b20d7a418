[package]
name = "nemax"
version = "0.1.0"
edition = "2021"
publish = false

[dependencies]
rand = "0.8"
serde = { version = "1", features = ["derive"] }
serde_json = "1"
base64 = "0.22"
tracing = "0.1"
tracing-subscriber = { version = "0.3", features = ["env-filter"] }
image = { version = "*", default-features = false, features = ["png"] }
tao = "*"
wry = "*"
muda = "*"
tray-icon = "*"
winreg = "*"
winapi = { version = "0.3", features = ["winuser", "synchapi", "handleapi", "errhandlingapi", "winerror", "minwindef"] }
