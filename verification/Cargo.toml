[package]
name = "vault"
version = "0.1.0"
edition = "2021"
publish = false

[dependencies]
arboard = { version = "3", default-features = false }
clap = { version = "4", features = ["derive"] }
home = "0.5"
rand = "0.8"
rpassword = "7"
rprompt = "2"
