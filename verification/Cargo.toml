[package]
name = "norg_html"
version = "0.1.0"
edition = "2021"
publish = false

[dependencies]
yaml-rust2 = "=0.8.1"
build_html = "=2.8.0"
serde = { version = "=1.0.229", features = ["derive"] }
serde_yaml2 = "=0.1.3"
tokio = { version = "=1.53.2", features = ["fs", "rt"] }
async-walkdir = "=2.2.0"
futures = "=0.3.34"
