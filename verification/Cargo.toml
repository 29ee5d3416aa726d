[package]
name = "usbbench"
version = "0.1.0"
edition = "2021"
publish = false

[dependencies]
rand = { version = "0.8", default-features = false, features = ["small_rng"] }
clap = { version = "4", features = ["derive"] }
chrono = "0.4"
sysinfo = "0.30"
libc = "0.2"
windows-sys = { version = "0.52", features = ["Win32_Foundation", "Win32_Storage_FileSystem"] }
