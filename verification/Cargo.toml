[package]
name = "cmkt"
version = "0.1.0"
edition = "2021"
publish = false

[dependencies]
clap = { version = "4", features = ["derive"] }
git2 = "*"
serde = { version = "1", features = ["derive"] }
tera = "1"
toml = "*"
toml_edit = "*"
