[package]
name = "consensus_sim"
version = "0.1.0"
edition = "2021"
publish = false

[dependencies]
chrono = { version = "0.4", default-features = false, features = ["now"] }
rand = "0.8"
sha2 = "0.10"
