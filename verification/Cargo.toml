[package]
name = "toe"
version = "0.1.0"
edition = "2021"
publish = false

[dependencies]
chrono = { version = "0.4", default-features = false, features = ["clock"] }
ctrlc = "3"
libc = "0.2"
serde = { version = "1", features = ["derive"] }
sysinfo = { version = "0.29", default-features = false }
toml = "0.8"
