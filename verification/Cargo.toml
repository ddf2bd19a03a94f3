[package]
name = "flowtally"
version = "0.1.0"
edition = "2021"
publish = false

[dependencies]
chrono = "0.4"
clap = { version = "3", features = ["derive"] }
ctrlc = "3"
pcap = "0.9"
