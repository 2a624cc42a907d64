[package]
name = "schema_encoder"
version = "0.1.0"
edition = "2021"
publish = false

[dependencies]
apache-avro = "*"
serde = { version = "1", features = ["derive"] }
