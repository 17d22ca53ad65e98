[package]
name = "csv_sanity"
version = "0.1.0"
edition = "2021"
publish = false

[dependencies]
regex = "1"
time = "0.1"
unicode-segmentation = "1"
clap = "2"
csv = "0.15"
serde = { version = "1", features = ["derive"] }
serde_json = "1"
log = "0.3"
