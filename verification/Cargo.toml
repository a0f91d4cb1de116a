[package]
name = "fe-engine"
version = "0.1.0"
edition = "2021"
publish = false

[dependencies]
chrono = "0.4"
serde = { version = "1", features = ["derive"] }
serde_json = "1"
thiserror = "1"
nalgebra = "0.33"
nalgebra-sparse = "0.10"
md5 = "0.7"
