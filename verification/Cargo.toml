[package]
name = "aprz"
version = "0.1.0"
edition = "2021"
publish = false

[dependencies]
vlen = "*"
chrono = "0.4"
semver = "1"
url = "2"
percent-encoding = "2"
cel-interpreter = "*"
jiff = "*"
serde = { version = "1", features = ["derive"] }
serde_json = "1"
toml = "*"
owo-colors = "*"
terminal_size = "*"
