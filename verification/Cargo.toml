[package]
name = "udp_retransmitter"
version = "0.1.0"
edition = "2021"
publish = false

[dependencies]
rand = "0.8"
tokio = { version = "1", features = ["full"] }
clap = "4"
crossterm = "0.27"
