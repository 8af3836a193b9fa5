[package]
name = "course_runner"
version = "0.1.0"
edition = "2021"
publish = false

[dependencies]
serde = { version = "*", features = ["derive"] }
serde_json = "*"
clap = { version = "*", features = ["derive"] }
env_logger = "*"
chrono = "*"
colored = "*"
indicatif = "*"
log = "*"
thiserror = "*"
lazy_static = "*"
