[package]
name = "mublog"
version = "0.1.0"
edition = "2021"
publish = false

[dependencies]
anyhow = "*"
build_html = "*"
chrono = "*"
clap = { version = "*", features = ["derive"] }
colored = "*"
inquire = "*"
markdown = "*"
toml_edit = "*"
walkdir = "*"
