[package]
name = "tablero"
version = "0.1.0"
edition = "2021"
publish = false

[dependencies]
calloop = "0.14"
calloop-wayland-source = "0.4"
cosmic-text = "*"
env_logger = "0.11"
futures-util = "0.3"
log = "0.4"
nix = { version = "*", features = ["signal", "process"] }
pipewire = "*"
rustix = { version = "1", features = ["fs", "event"] }
serde = { version = "1", features = ["derive"] }
smithay-client-toolkit = { version = "0.20", default-features = false, features = ["calloop"] }
tiny-skia = "*"
tokio = { version = "1", features = ["rt-multi-thread", "sync", "time", "process", "fs", "macros"] }
toml = "*"
wayland-client = "0.31"
zbus = { version = "5", default-features = false, features = ["tokio"] }
