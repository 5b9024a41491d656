[package]
name = "ifuse-rs"
version = "0.1.0"
edition = "2021"
publish = false

[dependencies]
clap = { version = "4", features = ["derive"] }
fuser = { version = "*", default-features = false }
idevice = { version = "*", default-features = false, features = ["afc", "house_arrest", "installation_proxy", "ring", "tcp", "usbmuxd"] }
libc = "0.2"
plist = "1"
thiserror = "2"
tokio = { version = "1", features = ["macros", "rt", "signal", "time"] }
tracing = "0.1"
tracing-subscriber = { version = "0.3", features = ["env-filter"] }
widestring = "*"
windows = { version = "*", features = ["Win32_Foundation"] }
winfsp = "*"
winfsp-sys = "*"
