[package]
name = "folderlock"
version = "0.1.0"
edition = "2021"
publish = false

[dependencies]
sha2 = "=0.10.9"
serde = { version = "1", features = ["derive"] }
serde_json = "1"
humantime = "2"
libc = "0.2"
windows-sys = { version = "0.59", features = ["Win32_Foundation", "Win32_Security", "Win32_Security_Authorization", "Win32_Storage_FileSystem"] }
eframe = { version = "0.37", default-features = false, features = ["glow", "x11", "default_fonts"] }
rfd = { version = "0.17", default-features = false, features = ["gtk3"] }
