[package]
name = "spacefree"
version = "0.1.0"
edition = "2021"
publish = false

[dependencies]
clap = { version = "*", features = ["derive"] }
futures = "*"
globset = "*"
indicatif = "*"
num_cpus = "*"
thiserror = "*"
tokio = { version = "*", features = ["rt-multi-thread", "macros", "fs"] }
trash = "*"
walkdir = "*"

[dev-dependencies]
tempfile = "*"
