[package]
name = "machine_id"
version = "0.1.0"
edition = "2021"
publish = false

[dependencies]
uuid = { version = "1", features = ["serde"] }
serde = { version = "1", features = ["derive"] }
thiserror = "*"
libc = "0.2"
winreg = "*"
core-foundation = "*"
apple-sys = { version = "*", features = ["IOKit"] }

[dev-dependencies]
serde_json = "1"
