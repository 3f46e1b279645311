[package]
name = "dprint_engine"
version = "0.1.0"
edition = "2021"
publish = false

[dependencies]
anyhow = "=1.0.104"
dirs = "=7.0.0"
dunce = "=1.0.5"
once_cell = "=1.21.4"
parking_lot = "=0.12.5"
path-clean = "=1.0.1"
sysinfo = "=0.39.6"
thiserror = "=2.0.21"
tokio = { version = "=1.54.1", default-features = false, features = ["rt", "time"] }
wasmer = { version = "=6.1.0", default-features = false, features = ["sys", "compiler"] }
winreg = "=0.56.0"
