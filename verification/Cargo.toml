[package]
name = "table_stream"
version = "0.1.0"
edition = "2021"
publish = false

[dependencies]
polars = { version = "0.35", features = ["lazy"] }
serde_json = "1.0"
jni = "0.21"
