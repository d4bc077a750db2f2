[package]
name = "motion_core"
version = "0.1.0"
edition = "2021"
publish = false

[dependencies]
parse_rc_ibus = "0.2.0"
chrono = "0.4"
nalgebra = "0.33"
rppal = "0.22"
serde = { version = "1", features = ["derive"] }
serde_yaml = "0.9"
serialport = { version = "4", default-features = false }
ureq = { version = "3", default-features = false }
