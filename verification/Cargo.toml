[package]
name = "search_aggregation"
version = "0.1.0"
edition = "2021"
publish = false

[dependencies]
askama = { version = "0.12", default-features = false }
hyper = "0.14"
serde_json = "1"
