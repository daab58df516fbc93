[package]
name = "rspfind"
version = "0.1.0"
edition = "2021"
publish = false

[dependencies]
anyhow = "1"
clap = { version = "4", features = ["derive"] }
dashmap = "6"
indicatif = "0.17"
owo-colors = "4"
rayon = "1"
walkdir = "2"
