[package]
name = "mamacine"
version = "0.1.0"
edition = "2021"
publish = false

[dependencies]
serde = { version = "1", features = ["derive"] }
serde_json = "1"
ring = "0.17"
getrandom = "0.3"
libc = "0.2"
