[package]
name = "create3miner"
version = "0.1.0"
edition = "2021"
publish = false

[dependencies]
ethers = { version = "2", default-features = false }
hex = "0.4"
regex = "1"
rand = "0.8"
rayon = "1"
wgpu = { version = "24", default-features = false, features = ["wgsl"] }
bytemuck = { version = "1", features = ["derive"] }
futures = { version = "0.3", default-features = false, features = ["std", "async-await", "executor"] }
pollster = "0.3"
clap = { version = "4", default-features = false, features = ["derive", "std", "help", "usage", "error-context"] }
env_logger = { version = "0.11", default-features = false }
log = "0.4"
