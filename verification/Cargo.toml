[package]
name = "winsysm"
version = "0.1.0"
edition = "2021"
publish = false

[dependencies]
colored = "2"
humansize = "2"
rayon = "1"
serde = { version = "1", features = ["derive"] }
serde_json = "1"
sysinfo = "0.30"
thiserror = "1"
walkdir = "2"
