[package]
name = "pistol"
version = "0.1.0"
edition = "2021"
publish = false

[dependencies]
anyhow = "=1.0.104"
chrono = "=0.4.45"
pnet = "=0.34.0"
rand = "=0.8.8"
regex = "=1.13.1"
subnetwork = "0.3"
