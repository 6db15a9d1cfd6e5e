[package]
name = "retry_after"
version = "0.1.0"
edition = "2021"
publish = false

[dependencies]
http = "*"
chrono = "*"
thiserror = "*"
