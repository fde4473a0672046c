[package]
name = "quickvm"
version = "0.1.0"
edition = "2021"
publish = false

[dependencies]
anyhow = "1"
arboard = { version = "3", default-features = false }
bytes = "1"
clap = { version = "4", features = ["derive"] }
core-foundation = "0.10"
core-graphics = "0.25"
dirs = "6"
enigo = { version = "0.6", default-features = false, features = ["x11rb"] }
foreign-types = "0.5"
hmac = "0.12"
objc2 = "0.6"
objc2-app-kit = "0.3"
objc2-foundation = "0.3"
postcard = { version = "1", features = ["use-std"] }
quinn = "0.11"
rand = "0.8"
rcgen = "0.14"
rustls = "0.23"
serde = { version = "1", features = ["derive"] }
sha2 = "0.10"
tokio = { version = "1", features = ["full"] }
toml = "0.9"
tracing = "0.1"
tracing-subscriber = "0.3"
windows-sys = { version = "0.61", features = ["Win32_Foundation", "Win32_Graphics_Gdi", "Win32_System_DataExchange", "Win32_System_LibraryLoader", "Win32_System_Memory", "Win32_System_Threading", "Win32_UI_Shell", "Win32_UI_WindowsAndMessaging"] }
