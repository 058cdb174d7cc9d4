[package]
name = "recoverpill"
version = "1.0.0"
edition = "2021"
publish = false

[dependencies]
image = { version = "0.25", default-features = false, features = ["jpeg", "png", "gif", "bmp", "webp", "ico"] }
log = "0.4"
env_logger = "0.11"
chrono = "0.4"
serde = { version = "1", features = ["derive"] }
serde_json = "1"
rayon = "1"
parking_lot = "0.12"
winapi = { version = "0.3", features = ["fileapi", "handleapi", "winnt", "errhandlingapi", "ioapiset", "minwindef"] }
