[package]
name = "advanced_shortcut"
version = "0.1.0"
edition = "2021"
publish = false

[dependencies]
base64 = "*"
dirs = "*"
glob = "*"
ico = "*"
image = "*"
open = "*"
serde = { version = "*", features = ["derive"] }
serde_json = "*"
sysinfo = "*"
