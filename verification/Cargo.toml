[package]
name = "citeproc"
version = "0.1.0"
edition = "2021"
publish = false

[dependencies]
serde = { version = "1", features = ["derive"] }
nom = "4"
fnv = "1"
string_cache = "0.7"

[dev-dependencies]
serde_json = "1"
