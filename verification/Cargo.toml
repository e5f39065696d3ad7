[package]
name = "lakehouse_engine"
version = "0.1.0"
edition = "2021"
publish = false

[dependencies]
exasol-udf-sdk = "0.34"
futures = "0.3"
serde_json = "1"
