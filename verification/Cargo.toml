[package]
name = "tuxedo-core"
version = "0.1.0"
edition = "2021"
publish = false

[dependencies]
parity-scale-codec = { version = "=3.7.5", features = ["derive"] }
parity-util-mem = "=0.12.0"
serde = { version = "=1.0.229", features = ["derive"] }
sp-core = "=7.0.0"
sp-runtime = "=7.0.0"
sp-std = "=5.0.0"
substrate-bip39 = "=0.4.4"
