[package]
name = "labino_rust"
version = "0.1.0"
edition = "2021"
publish = false

[dependencies]
chrono = { version = "0.4", default-features = false, features = ["std", "clock"] }
itertools = "0.13"
log = "0.4"
log4rs = "1"
serde = { version = "1", features = ["derive"] }
serde_derive = "1"
serde_json = "1"
serialport = { version = "4", default-features = false }
thiserror = "1"
