[package]
name = "schematic"
version = "0.1.0"
edition = "2021"
publish = false

[dependencies]
convert_case = "=0.8.0"
regex = "=1.13.1"
semver = "=1.0.28"
serde = { version = "=1.0.229", features = ["derive"] }
serde_json = "=1.0.154"
serde_yaml = "=0.9.34"
toml = "=1.1.8"
ron = "=0.12.3"
thiserror = "=2.0.21"
miette = "=7.6.0"
serde_path_to_error = "=0.1.20"
json-strip-comments = "=3.1.2"
reqwest = { version = "0.12", default-features = false, features = ["blocking", "rustls-tls"] }
rpkl = "*"
