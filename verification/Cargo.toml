[package]
name = "adventure"
version = "0.1.0"
edition = "2021"
publish = false

[dependencies]
shlex = "*"
serde = { version = "*", features = ["derive"] }
serde_json = "*"
slog = "*"
slog-term = "*"
slog-async = "*"
slog-envlogger = "*"
env_logger = "*"
dotenv = "*"
