[package]
name = "schema_migration"
version = "0.1.0"
edition = "2021"
publish = false

[dependencies]
syn = "2"
