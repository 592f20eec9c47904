[package]
name = "mcp_core"
version = "0.1.0"
edition = "2021"
publish = false

[dependencies]
chrono = "*"
serde = { version = "*", features = ["derive"] }
serde_json = "*"
log = "*"
log4rs = "*"
memmap2 = "*"
crossbeam = "*"
once_cell = "*"
thiserror = "*"
dashmap = "*"
