[package]
name = "rogue_tremolo"
version = "0.1.0"
edition = "2021"
publish = false

[dependencies]
clap = { version = "=4.6.7", features = ["derive"] }
colored = "=2.2.0"
deluge_api = "=0.2.5"
flat_db = "=0.2.0"
log = "=0.4.35"
qbittorrent_api = "=0.3.1"
rogue_logging = "=0.3.0"
serde = { version = "=1.0.229", features = ["derive"] }
serde_yaml = "=0.9.34"
tokio = { version = "=1.54.1", features = ["macros", "rt-multi-thread"] }
