[package]
name = "zellij_bookmarks"
version = "0.1.0"
edition = "2021"
publish = false

[dependencies]
handlebars = "*"
num_enum = "*"
owo-colors = "*"
serde = { version = "1", features = ["derive"] }
serde_yaml = "*"
zellij-tile = "*"
