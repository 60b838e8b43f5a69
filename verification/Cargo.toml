[package]
name = "hyperlight-unikraft"
version = "0.1.0"
edition = "2021"
publish = false

[dependencies]
anyhow = "=1.0.104"
async-openai = "=0.28.3"
base64 = "=0.22.1"
clap = { version = "=4.6.7", features = ["derive"] }
dotenvy = "=0.15.7"
hyperlight-host = "=0.12.0"
nix = { version = "=0.29.0", features = ["fs"] }
tempfile = "=3.27.0"
tokio = { version = "=1.54.1", features = ["macros", "rt-multi-thread"] }
tracing = "=0.1.44"
tracing-subscriber = { version = "=0.3.23", features = ["env-filter"] }
