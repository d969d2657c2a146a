[package]
name = "typed_geojson"
version = "0.2.1"
edition = "2021"
publish = false

[dependencies]
geojson = "=1.0.0"
geo-types = "=0.7.20"
serde = { version = "1", features = ["derive"] }
serde_json = "1"
