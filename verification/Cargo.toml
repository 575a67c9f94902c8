[package]
name = "opendal"
version = "0.1.0"
edition = "2021"
publish = false

[dependencies]
async-trait = "0.1"
bytes = "1"
flagset = "0.4"
futures = "0.3"
http = "0.2"
log = "0.4"
prometheus = { version = "0.13", default-features = false }
tokio = { version = "1", features = ["rt", "macros", "io-util"] }
