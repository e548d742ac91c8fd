[package]
name = "segment_table"
version = "0.1.0"
edition = "2021"
publish = false

[dependencies]
livesplit-core = { version = "0.13", default-features = false, features = ["std", "software-rendering"] }
druid = "0.8"
image = "0.24"
serde = { version = "1", features = ["derive"] }
serde_yaml = "0.9"
directories = "5"
fern = "0.6"
chrono = "0.4"
log = { version = "0.4", features = ["serde"] }
backtrace = "0.3"
