[package]
name = "branch_prune"
version = "0.1.0"
edition = "2021"
publish = false

[dependencies]
anyhow = "1"
clap = { version = "4", features = ["derive"] }
git2 = { version = "*", default-features = false }
log = "0.4"
regex = "1"
simplelog = "*"
