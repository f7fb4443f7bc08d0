[package]
name = "script_bridge"
version = "0.1.0"
edition = "2021"
publish = false

[dependencies]
glam = "0.27"
mlua = { version = "=0.10.5", features = ["luau"] }
serde = { version = "1", features = ["derive"] }
thiserror = "1"
