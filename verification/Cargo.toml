[package]
name = "newtype_bindgen"
version = "0.1.0"
edition = "2021"
publish = false

[dependencies]
indexmap = "=1.9.3"
rustdoc-types = "=0.11.0"
clap = { version = "=3.2.25", features = ["derive"] }
serde = "=1.0.229"
serde_derive = "=1.0.229"
serde_json = "=1.0.154"
toml = "=0.5.11"
log = "=0.4.34"
rustc_span = "*"
