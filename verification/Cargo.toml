[package]
name = "ingest_core"
version = "0.1.0"
edition = "2021"

[dependencies]
sha2 = "=0.10.9"
whatlang = "=0.16.4"
