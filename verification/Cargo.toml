[package]
name = "local_git_hub"
version = "0.1.0"
edition = "2021"
publish = false

[dependencies]
anyhow = "1"
chrono = "0.4"
clap = { version = "4", features = ["derive"] }
colored = "2"
dialoguer = "0.11"
git2 = { version = "0.19", default-features = false }
humansize = "2"
