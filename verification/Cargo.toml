[package]
name = "weaver_lib"
version = "0.1.0"
edition = "2021"
rust-version = "1.95"
publish = false

[dependencies]
async-trait = "=0.1.92"
bindet = "=0.3.2"
chrono = "=0.4.45"
clap = { version = "=4.6.7", features = ["derive"] }
comrak = "=0.55.0"
dateparser = "=0.3.1"
futures = "=0.3.34"
glob = "=0.3.4"
gray_matter = "=0.3.2"
kstring = "=2.0.2"
liquid = "=0.26.11"
liquid-core = "=0.26.11"
markdown = "=1.0.0"
mime_guess = "=2.0.5"
notify = "=8.2.0"
regex = "=1.13.1"
resolve-path = "=0.1.0"
rouille = "=3.6.2"
serde = { version = "=1.0.229", features = ["derive"] }
serde_json = "=1.0.151"
slug = "=0.1.6"
syntect = "=5.3.0"
tempfile = "=3.27.0"
tokio = { version = "=1.53.2", features = ["rt-multi-thread", "macros", "sync", "fs", "time"] }
toml = "=1.1.6"
unicode-normalization = "=0.1.25"
walkdir = "=2.5.0"
