[package]
name = "pulp"
version = "0.1.0"
edition = "2021"
publish = false

[dependencies]
infer = "0.19"
filetime = "0.2"
serde = { version = "1", features = ["derive"] }
toml = "0.8"
serde_yaml = "0.9"
thiserror = "2"
clap = { version = "4", features = ["derive"] }
rpassword = "7"
sys-locale = "0.3"
