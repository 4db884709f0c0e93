[package]
name = "tiered_io"
version = "0.1.0"
edition = "2021"
publish = false

[dependencies]
parquet = { version = "=56.2.1", default-features = false }
rust_decimal = { version = "=1.43.0", default-features = false }
