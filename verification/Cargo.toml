[package]
name = "git_publish"
version = "0.1.0"
edition = "2021"
publish = false

[dependencies]
regex = "1"
serde = { version = "1", features = ["derive"] }
toml = "*"
clap = { version = "4", features = ["derive"] }
dirs = "*"
thiserror = "*"
anyhow = "1"
git2 = { version = "*", default-features = false }
