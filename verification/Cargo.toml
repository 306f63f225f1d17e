[package]
name = "f3core"
version = "0.1.0"
edition = "2021"
publish = false

[dependencies]
clap = { version = "=4.6.7", features = ["derive"] }
crossterm = "=0.29.0"
libc = "=0.2.191"
log = "=0.4.34"
simple-log = "=2.4.0"
windows-sys = { version = "=0.61.2", features = ["Win32_Storage_FileSystem"] }
