[package]
name = "inline_assets"
version = "0.1.0"
edition = "2021"
publish = false

[dependencies]
base64 = "0.13"
url = "2"
kuchiki = "0.8"
html5ever = "0.25"
reqwest = { version = "0.11", default-features = false, features = ["blocking"] }
serde_json = "1"
thiserror = "1"
log = "0.4"
once_cell = "1"

[dev-dependencies]
regex = "1"
