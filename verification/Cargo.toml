[package]
name = "stasis"
version = "1.1.1"
edition = "2021"
publish = false

[dependencies]
chrono = "=0.4.45"
clap = { version = "=4.6.7", features = ["derive"] }
dirs = "=7.0.0"
eventline = "=0.10.0"
futures = "=0.3.34"
regex = "=1.13.1"
rune-cfg = "=0.8.0"
rustix = { version = "=1.1.6", features = ["event", "process"] }
serde = { version = "=1.0.229", features = ["derive"] }
serde_json = "=1.0.154"
tokio = { version = "=1.54.1", features = ["full"] }
wayland-client = "=0.31.15"
wayland-protocols = { version = "=0.32.13", features = ["client", "staging"] }
zbus = { version = "=6.2.1", default-features = false, features = ["proxy", "tokio"] }
