[package]
name = "imap_sorter"
version = "1.0.0"
edition = "2021"
publish = false

[dependencies]
anyhow = "=1.0.104"
clap = { version = "=4.6.7", features = ["derive"] }
confy = "=2.0.0"
env_logger = "=0.11.11"
imap = "=3.0.0-alpha.15"
imap-proto = "=0.16.7"
log = "=0.4.34"
securestore = "=0.100.3"
serde = { version = "=1.0.229", features = ["derive"] }
serde_yaml = "=0.9.34"
