[package]
name = "germinal_infra"
version = "0.1.0"
edition = "2021"
publish = false

[dependencies]
unicode-segmentation = "1"
unicode-normalization = "0.1"
unicode-width = "0.2"
serde = { version = "1", features = ["derive"] }
serde_json = "1"
