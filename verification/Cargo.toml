[package]
name = "aviutl2_ndi_live_output"
version = "0.1.0"
edition = "2021"
publish = false

[dependencies]
serde = { version = "1", features = ["derive"] }
grafton-ndi = { version = "=1.0.0", default-features = false }
windows-sys = { version = "0.59", features = ["Win32_Foundation", "Win32_System_LibraryLoader"] }
