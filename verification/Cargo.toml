[package]
name = "brandybox"
version = "0.1.0"
edition = "2021"
publish = false

[dependencies]
sha2 = "0.10"
urlencoding = "2"
serde = { version = "1", features = ["derive"] }
serde_json = "1"
reqwest = { version = "0.12", features = ["blocking", "json"] }
walkdir = "2"
dirs = "5"
keyring = "2"
fs2 = "0.4"
log = "0.4"
open = "5"
