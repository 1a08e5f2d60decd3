[package]
name = "pgarchive"
version = "0.1.0"
edition = "2021"
publish = false

[dependencies]
chrono = { version = "0.4", default-features = false }
csv = "1"
flate2 = "1"
pg_query = "*"
thiserror = "1"
