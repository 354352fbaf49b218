[package]
name = "vat"
version = "0.1.0"
edition = "2021"
publish = false

[dependencies]
semver = "1"
serde = { version = "1", features = ["derive"] }
toml = "*"
fs2 = "*"
git2 = { version = "*", default-features = false }
zip = { version = "*", default-features = false, features = ["deflate"] }
url = { version = "*", features = ["serde"] }
dirs = "*"
dirs-next = "*"
clap = { version = "*", features = ["derive"] }
anyhow = "*"
thiserror = "*"
