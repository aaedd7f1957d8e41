[package]
name = "stt_linux"
version = "0.1.0"
edition = "2021"
publish = false

[dependencies]
anyhow = "=1.0.104"
clap = { version = "=4.6.7", features = ["derive"] }
cpal = "=0.18.2"
directories = "=6.0.0"
fontdb = "=0.24.0"
fontdue = "=0.9.5"
hound = "=3.5.1"
indicatif = "=0.18.6"
parakeet-rs = { version = "=0.4.4", default-features = false, features = ["cpu", "load-dynamic"] }
regex = "=1.13.1"
ringbuf = "=0.6.0"
rubato = "=5.0.1"
serde = { version = "=1.0.229", features = ["derive"] }
serde_json = "=1.0.154"
signal-hook = "=0.4.6"
smithay-client-toolkit = { version = "=0.20.0", default-features = false }
toml = "=1.1.8"
tracing = "=0.1.44"
tracing-subscriber = { version = "=0.3.23", features = ["env-filter"] }
ureq = "=3.5.1"
wayland-client = "=0.31.15"
zbus = "=5.19.0"
