[package]
name = "gpuseed"
version = "0.1.0"
edition = "2021"
publish = false

[dependencies]
bip39 = "2"
rand = "0.8"
clap = { version = "4", features = ["derive"] }
ctrlc = "3"
num_cpus = "1"
serde = { version = "1", features = ["derive"] }
serde_json = "1"
sysinfo = "*"
nvml-wrapper = "*"
