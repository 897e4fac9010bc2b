[package]
name = "sessy"
version = "0.4.0"
edition = "2021"
publish = false

[dependencies]
bincode = "1"
chrono = "0.4"
clap = { version = "4", features = ["derive"] }
copypasta = "0.10"
crossterm = "0.29"
dirs = "6"
memchr = "2"
memmap2 = "0.9"
ratatui = "0.30"
rayon = "1.10"
regex = "1"
serde = { version = "1", features = ["derive"] }
serde_json = "1"
toml = "*"
