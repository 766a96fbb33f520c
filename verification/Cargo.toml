[package]
name = "ferrisetw"
version = "0.1.0"
edition = "2021"
publish = false

[dependencies]
log = "0.4"
once_cell = "1"
serde = "1"
windows = { version = "0.52", features = ["Win32_Foundation", "Win32_System_Diagnostics_Etw"] }
