[package]
name = "jobsearch"
version = "0.1.0"
edition = "2021"
publish = false

[dependencies]
regex = "=1.13.1"
url = "=2.5.8"
html2text = "=0.17.4"
urlencoding = "=2.1.3"
serde = { version = "=1.0.229", features = ["derive"] }
serde_json = "=1.0.154"
toml = "=1.1.8"
clap = { version = "=4.6.7", features = ["derive"] }
chrono = "=0.4.45"
shellexpand = "=3.1.2"
comfy-table = "=8.0.1"
directories = "6"
