[package]
name = "quickspell"
version = "0.1.0"
edition = "2021"
publish = false

[dependencies]
handlebars = "*"
serde_json = "*"
shell-words = "*"
serde = { version = "*", features = ["derive"] }
serde_yaml = "*"
