[package]
name = "sc_launcher"
version = "0.1.0"
edition = "2021"
publish = false

[dependencies]
anyhow = "1"
clap = { version = "4", features = ["derive"] }
fslock = "0.2"
libc = "0.2"
log = "0.4"
serde = "1"
serde_json = "1"
socket2 = "0.5"
tiny_http = "0.12"
which = "6"
zed_extension_api = "*"
