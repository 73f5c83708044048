[package]
name = "location_finder"
version = "0.1.0"
edition = "2021"
publish = false

[dependencies]
clap = { version = "4", features = ["derive"] }
csv = "1"
log = "0.4"
multimap = "*"
serde = { version = "1", features = ["derive"] }
simple_logger = "*"
thiserror = "1"
unicode-normalization = "0.1"
