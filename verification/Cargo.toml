[package]
name = "psy_rollback"
version = "0.1.0"
edition = "2021"
publish = false

[dependencies]
sha2 = "0.10"
scylla = "1"
anyhow = "1"
futures = "0.3"
