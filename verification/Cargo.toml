[package]
name = "store_journal"
version = "0.1.0"
edition = "2021"
publish = false

[dependencies]
atomic-write-file = "*"
libc = "0.2"
rusqlite = { version = "*", features = ["bundled"] }
serde = { version = "1", features = ["derive"] }
serde_json = "1"
uuid = { version = "1", features = ["v4"] }
windows-sys = { version = "*", features = ["Win32_Foundation", "Win32_Security", "Win32_System_Threading"] }
