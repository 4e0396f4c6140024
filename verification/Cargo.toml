[package]
name = "renogymon"
version = "0.1.0"
edition = "2021"
publish = false

[dependencies]
chrono = "=0.4.45"
bluebus = "=0.1.10"
zbus = "=5.19.0"
tokio = { version = "=1.54.1", features = ["rt-multi-thread", "macros", "sync", "time"] }
futures = "=0.3.34"
async-trait = "=0.1.92"
ratatui = "=0.30.2"
ratatui-macros = "=0.7.2"
