[package]
name = "bluegone"
version = "0.1.0"
edition = "2021"
publish = false

[dependencies]
anyhow = "1"
chrono = "0.4"
clap = { version = "4", features = ["derive", "cargo"] }
daemonize-me = "*"
env_logger = "*"
log = "0.4"
regex = "1"
serde = { version = "1", features = ["derive"] }
signal-hook = "0.3"
sunrise-sunset-calculator = "*"
sysinfo = "*"
toml = "*"
x11rb = { version = "*", features = ["randr"] }
