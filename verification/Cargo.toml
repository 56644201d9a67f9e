[package]
name = "django_cli"
version = "0.1.0"
edition = "2021"
publish = false

[dependencies]
regex = "1"
thiserror = "1"
anyhow = "1"
clap = { version = "4", features = ["derive"] }
dialoguer = "0.11"
env_logger = "0.11"
serde = { version = "1", features = ["derive"] }
serde_json = "1"
tera = "1"
tokio = { version = "1", features = ["macros", "process", "rt-multi-thread"] }
