[package]
name = "repoctl"
version = "0.1.0"
edition = "2021"
publish = false

[dependencies]
url = "2"
walkdir = "2"
clap = "4"
rusqlite = { version = "0.32", features = ["bundled"] }
