[package]
name = "pylon"
version = "0.1.0"
edition = "2021"
publish = false

[dependencies]
chrono = "0.4"
dispatch2 = "0.3"
etagere = "0.2"
keyring = { version = "3", default-features = false, features = ["apple-native"] }
mio = { version = "1", features = ["os-poll", "os-ext"] }
nix = { version = "0.29", features = ["fs", "ioctl", "process", "signal", "term"] }
objc2 = "0.6"
objc2-foundation = "0.3"
objc2-metal = "0.3"
objc2-quartz-core = "0.3"
raw-window-metal = "1"
reqwest = { version = "0.12", default-features = false, features = ["json", "rustls-tls"] }
serde_json = "1"
thiserror = "2"
tokio = { version = "1", features = ["macros", "rt-multi-thread", "sync", "time"] }
toml = "0.8"
tracing = "0.1"
tracing-subscriber = { version = "0.3", features = ["env-filter"] }
vte = "0.15"
winit = { version = "0.30", default-features = false, features = ["rwh_06", "x11"] }
