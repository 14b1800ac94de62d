[package]
name = "sigscan"
version = "0.1.0"
edition = "2021"
publish = false

[dependencies]
sha2 = "0.10"
walkdir = "2"
rayon = "1"
tokio = { version = "1", features = ["rt-multi-thread", "macros"] }
once_cell = "1"
