[package]
name = "northstar"
version = "0.1.0"
edition = "2021"
publish = false

[dependencies]
anyhow = "1"
bytes = "1"
colored = "2"
futures = "0.3"
itertools = "0.10"
log = "0.4"
nix = "=0.26.4"
page_size = "0.6"
prettytable-rs = "0.10"
procinfo = "0.4"
semver = "1"
serde = { version = "1", features = ["derive"] }
serde_json = "1"
serde_yaml = "0.9"
structopt = "0.3"
tempfile = "3"
thiserror = "1"
tokio = { version = "1", features = ["full"] }
tokio-util = { version = "0.7", features = ["codec"] }
toml = "0.5"
url = { version = "=2.5.8", features = ["serde"] }
which = "4"
zip = { version = "0.6", default-features = false, features = ["deflate"] }
