[package]
name = "analyse_json"
version = "0.1.0"
edition = "2021"
publish = false

[dependencies]
anyhow = "=1.0.104"
clap = { version = "=4.6.7", features = ["derive"] }
clap_complete = "=4.6.11"
env_logger = "=0.11.11"
flate2 = "=1.1.10"
glob = "=0.3.4"
grep-cli = "=0.1.12"
humantime = "=2.4.0"
indexmap = { version = "=2.14.2", features = ["serde"] }
indicatif = "=0.18.6"
owo-colors = { version = "=4.4.0", features = ["supports-colors"] }
rayon = "=1.12.0"
serde = { version = "=1.0.229", features = ["derive"] }
serde_json = { version = "=1.0.151", features = ["preserve_order"] }
serde_json_path = "=0.7.2"
thiserror = "=2.0.21"
