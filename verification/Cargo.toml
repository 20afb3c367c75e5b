[package]
name = "icon_flavor"
version = "0.1.0"
edition = "2021"
publish = false

[dependencies]
anyhow = "1"
etcetera = "0.4"
log = "0.4"
once_cell = "1"
serde = { version = "1", features = ["derive"] }
toml = "0.5"
