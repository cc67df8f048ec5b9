[package]
name = "niri_autostart"
version = "0.1.0"
edition = "2021"
publish = false

[dependencies]
clap = { version = "4", features = ["derive"] }
knuffel = "*"
libc = "0.2"
niri-ipc = "*"
serde = { version = "1", features = ["derive"] }
serde_json = "1"
thiserror = "*"
