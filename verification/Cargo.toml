[package]
name = "deck"
version = "0.1.0"
edition = "2021"
publish = false

[dependencies]
anyhow = "=1.0.104"
chrono = { version = "=0.4.45", features = ["serde"] }
dirs = "=7.0.0"
ftui-core = "=0.7.0"
ftui-layout = "=0.7.0"
ftui-render = "=0.7.0"
ftui-runtime = "=0.7.0"
ftui-style = "=0.7.0"
ftui-text = "=0.7.0"
ftui-widgets = "=0.7.0"
portable-pty = "=0.9.0"
serde = { version = "=1.0.229", features = ["derive"] }
serde_json = "=1.0.151"
uuid = { version = "=1.27.0", features = ["v4", "serde"] }
