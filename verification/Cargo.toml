[package]
name = "vxlvm"
version = "0.1.0"
edition = "2021"
publish = false

[dependencies]
sha2 = "=0.10.9"
sha3 = "=0.10.9"
digest = "=0.10.7"
rustc_apfloat = "*"
clap = { version = "=4.5.61", features = ["derive"] }

[dev-dependencies]
hex = "=0.4.3"
