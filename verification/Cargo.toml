[package]
name = "phi"
version = "0.1.0"
edition = "2021"
publish = false

[dependencies]
getrandom = "=0.3.4"
owo-colors = { version = "=4.4.0", features = ["supports-colors"] }
serde_json = "=1.0.154"
vte = "=0.15.0"
clap = "=4.6.7"
indexmap = "=2.14.2"
serde = { version = "1", features = ["derive"] }
serde_yaml = "0.9"
async-trait = "0.1"
