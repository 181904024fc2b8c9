[package]
name = "river"
version = "0.1.0"
edition = "2021"
publish = false

[dependencies]
libc = "*"
tempfile = "*"
serde = { version = "*", features = ["derive"] }
serde_yaml = "*"
num_cpus = "*"
zip = "*"
