[package]
name = "boot_manager"
version = "0.1.0"
edition = "2021"
publish = false

[dependencies]
chrono = "0.4"
clap = { version = "3", features = ["derive"] }
crc = "3"
env_logger = "0.10"
glob = "0.3"
libc = "0.2"
log = "0.4"
regex = "1"
serde = { version = "1", features = ["derive"] }
serde_json = "1"
tempfile = "3"
