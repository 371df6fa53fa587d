[package]
name = "which_workspace"
version = "0.1.0"
edition = "2021"
publish = false

[dependencies]
anyhow = "*"
async-std = { version = "*", features = ["attributes"] }
config = { version = "*", default-features = false, features = ["toml"] }
http-cache-surf = "*"
miette = "*"
serde = { version = "*", features = ["derive"] }
serde_json = "*"
surf = "*"
surf-governor = "*"
thiserror = "*"
url = "*"
