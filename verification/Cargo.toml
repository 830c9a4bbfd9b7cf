[package]
name = "network_gossip"
version = "0.1.0"
edition = "2021"
publish = false

[dependencies]
futures = "=0.1.31"
sp-runtime = "49.0.0"
