[package]
name = "markflow"
version = "1.0.0"
edition = "2021"
publish = false

[dependencies]
serde = { version = "1", features = ["derive"] }
serde_json = "1"
reqwest = { version = "0.12", default-features = false, features = ["json"] }
tauri = { version = "2", default-features = false, features = ["wry"] }
tauri-plugin-dialog = "2"
tauri-plugin-fs = "2"
windows-sys = { version = "0.61", features = ["Win32_Storage_FileSystem", "Win32_Foundation"] }
