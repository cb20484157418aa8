[package]
name = "schema_resolver"
version = "0.1.0"
edition = "2021"
publish = false

[dependencies]
anyhow = "1"
gumdrop = "0.8"
log = "0.4"
prost = "0.9"
prost-build = "0.9"
prost-types = "0.9"
schema_registry_converter = { version = "2", default-features = false, features = ["blocking"] }
tempfile = "3"
tracing-subscriber = "0.2"

[dev-dependencies]
regex = "1"
