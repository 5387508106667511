[package]
name = "rostgis"
version = "0.1.0"
edition = "2021"
publish = false

[dependencies]
rstar = "=0.13.0"
geo = "=0.33.1"
geo-types = { version = "=0.7.20", features = ["serde"] }
serde = { version = "=1.0.229", features = ["derive"] }
