[package]
name = "tlms"
version = "0.9.0"
edition = "2021"
publish = false

[dependencies]
chrono = { version = "0.4", features = ["serde"] }
diesel = { version = "2", features = ["postgres", "uuid", "chrono"] }
log = "0.4"
pbkdf2 = { version = "0.11", features = ["simple"] }
securefmt = "0.1"
serde = { version = "1", features = ["derive"] }
serde_json = "1"
utoipa = { version = "*", features = ["uuid", "chrono"] }
uuid = { version = "1", features = ["serde"] }
