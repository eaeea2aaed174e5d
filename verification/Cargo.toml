[package]
name = "logger"
version = "0.1.0"
edition = "2021"
publish = false

[dependencies]
chrono = "=0.4.45"
slog = "=2.8.2"
slog-async = "=2.8.0"
slog-envlogger = "=2.2.0"
slog-scope = "=4.4.1"
slog-term = "=2.9.2"
