[package]
name = "floating_memo"
version = "0.1.0"
edition = "2021"
publish = false

[dependencies]
chrono = "0.4"
directories = "6"
log = "0.4"
rusqlite = { version = "0.41", features = ["bundled"] }
serde = { version = "1", features = ["derive"] }
serde_json = "1"
window-vibrancy = "0.8"

[dev-dependencies]
tempfile = "3"
