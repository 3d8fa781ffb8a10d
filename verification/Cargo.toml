[package]
name = "splint"
version = "0.1.0"
edition = "2021"
publish = false

[dependencies]
regex = "*"
proc-macro2 = { version = "*", features = ["span-locations"] }
serde = { version = "*", features = ["derive"] }
serde_json = "*"
toml = "*"
clap = { version = "*", features = ["derive"] }
glob = "*"
miette = { version = "*", features = ["fancy"] }
owo-colors = "*"
