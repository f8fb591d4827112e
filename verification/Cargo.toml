[package]
name = "vitobar"
version = "0.1.0"
edition = "2021"
publish = false

[dependencies]
serde = { version = "1", features = ["derive"] }
serde_json = "1"
toml = "0.8"
sysinfo = "0.30"
chrono = "0.4"
log = "0.4"
env_logger = "0.11"
niri-ipc = "*"
zbus = "4"
tokio = { version = "1", features = ["rt", "time"] }
smithay-client-toolkit = "0.19"
wayland-client = "0.31"
calloop = "0.13"
calloop-wayland-source = "0.3"
tiny-skia = "0.11"
fontdue = "0.9"
png = "0.17"
signal-hook = "0.3"
