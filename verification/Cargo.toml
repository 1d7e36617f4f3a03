[package]
name = "git_client"
version = "0.1.0"
edition = "2021"
publish = false

[dependencies]
dirs = "=5.0.1"
git2 = { version = "=0.19.0", default-features = false }
notify = "=6.1.1"
notify-debouncer-mini = "=0.4.1"
parking_lot = "=0.12.5"
serde = { version = "=1.0.229", features = ["derive"] }
tauri = { version = "2", default-features = false }
thiserror = "=1.0.69"
