[package]
name = "toolbox_context_menu"
version = "0.1.0"
edition = "2021"
publish = false

[dependencies]
anyhow = "=1.0.104"
atty = "=0.2.14"
clap = { version = "=4.6.7", features = ["derive"] }
env_logger = "=0.11.11"
log = "=0.4.35"
octocrate = { version = "=2.2.0", features = ["repos"] }
serde = { version = "=1.0.229", features = ["derive"] }
serde_json = "=1.0.154"
serde_yaml = "=0.9.34"
tokio = { version = "=1.54.1", features = ["macros", "rt-multi-thread"] }
winreg = "=0.56.0"
