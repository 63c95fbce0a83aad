[package]
name = "usbackup"
version = "0.1.0"
edition = "2021"
publish = false

[dependencies]
chrono = { version = "0.4.45", default-features = false, features = ["clock", "std"] }
colored = "3.1.1"
crossterm = "0.29.0"
dialoguer = { version = "0.12.0", default-features = false, features = ["fuzzy-select"] }
directories = "6.0.0"
env_logger = { version = "0.11.11", default-features = false, features = ["auto-color", "humantime"] }
futures-lite = "2.6.1"
hex = "0.4.3"
hmac = "0.12.1"
indicatif = "0.18.6"
log = "0.4.35"
notify-rust = { version = "4.18.2", default-features = false, features = ["d"] }
nusb = "0.2.9"
rand = "0.10.3"
ratatui = { version = "0.30.2", default-features = false, features = ["crossterm"] }
reqwest = { version = "0.12.28", default-features = false, features = ["blocking", "json", "rustls-tls"] }
serde = { version = "1.0.229", features = ["derive"] }
sha2 = "0.10.9"
sysinfo = { version = "0.40.1", default-features = false, features = ["disk"] }
tokio = { version = "1.54.1", features = ["rt-multi-thread", "macros", "time", "process", "io-util", "sync"] }
toml = "0.9.8"
udev = "0.9.3"
