[package]
name = "nfs_gaze"
version = "0.1.0"
edition = "2021"
publish = false

[dependencies]
anyhow = "1"
chrono = "0.4"
signal-hook = "0.3"
