[package]
name = "wallscape"
version = "0.1.0"
edition = "2021"
publish = false

[dependencies]
reqwest = { version = "0.12", default-features = false, features = ["json"] }
scraper = "*"
serde = { version = "1", features = ["derive"] }
serde_json = "1"
base64 = "0.22"
tokio = { version = "1", features = ["rt-multi-thread", "macros", "time", "sync"] }
rusqlite = { version = "*", features = ["bundled"] }
parking_lot = "0.12"
anyhow = "1"
tracing = "0.1"
libmpv2 = "*"
windows = { version = "0.58", features = ["Win32_Foundation", "Win32_Graphics_Gdi", "Win32_Graphics_Dwm", "Win32_UI_WindowsAndMessaging", "Win32_UI_Shell", "Win32_System_Com", "Win32_System_Threading", "Win32_System_Power", "Win32_System_StationsAndDesktops", "Win32_System_SystemServices", "Win32_System_LibraryLoader"] }
