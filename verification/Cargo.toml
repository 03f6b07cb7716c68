[package]
name = "exec_core"
version = "0.1.0"
edition = "2021"
publish = false

[dependencies]
arrow = "*"
futures = "*"
parking_lot = "*"
pin-project-lite = "*"
tokio = { version = "*", features = ["rt", "sync"] }
