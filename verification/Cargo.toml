[package]
name = "hidl"
version = "0.1.0"
edition = "2021"
publish = false

[dependencies]
anyhow = "1"
camino = "1"
debug2 = "0.1"
fs-err = "2"
heck = "0.4"
is_ci = "1"
lalrpop-util = "0.19"
serde = { version = "1", features = ["derive"] }
serde_json = "1"
