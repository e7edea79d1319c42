[package]
name = "version_sync"
version = "0.1.0"
edition = "2021"
publish = false

[dependencies]
proc-macro2 = { version = "=1.0.107", features = ["span-locations"] }
pulldown-cmark = { version = "=0.9.6", default-features = false }
regex = "=1.13.1"
semver = "=1.0.28"
semver-parser = "=0.9.0"
syn = { version = "=2.0.119", features = ["full", "extra-traits"] }
toml = "=0.5.11"
url = "=2.5.8"
