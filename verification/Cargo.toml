[package]
name = "drum_city"
version = "0.1.0"
edition = "2021"
publish = false

[dependencies]
bevy = { version = "=0.12.1", default-features = false }
console_error_panic_hook = "=0.1.7"
serde = { version = "=1.0.229", features = ["derive"] }
toml = "=0.8.23"
