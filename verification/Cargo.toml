[package]
name = "kindle_dashboard"
version = "0.1.0"
edition = "2021"
publish = false

[dependencies]
chrono = "0.4"
libc = "0.2"
log = "0.4"
serde = { version = "1", features = ["derive"] }
serde_json = "1"
slint = { version = "=1.9.2", default-features = false, features = ["std", "compat-1-2", "renderer-software"] }
ureq = { version = "2", default-features = false, features = ["json"] }
