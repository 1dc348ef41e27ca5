[package]
name = "qecu"
version = "0.1.0"
edition = "2021"
publish = false

[dependencies]
axum = "=0.8.9"
elf = "=0.7.4"
rand = "=0.8.8"
rhai = { version = "=1.27.0", features = ["sync"] }
serde = { version = "=1.0.229", features = ["derive"] }
serde_yaml = "=0.9.34"
tokio = { version = "=1.54.1", features = ["rt-multi-thread", "macros", "net"] }
unicorn-engine = "=2.0.1"
