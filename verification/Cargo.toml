[package]
name = "remote_python"
version = "0.1.0"
edition = "2021"
publish = false

[dependencies]
app_dirs = "=1.2.1"
base64 = "=0.13.1"
byteorder = "=1.5.0"
clap = "=2.34.0"
serde = { version = "=1.0.229", features = ["derive"] }
serde_derive = "=1.0.229"
serde_json = "=1.0.154"
tiny-keccak = "=1.5.0"
