[package]
name = "avro_columnar"
version = "0.1.0"
edition = "2021"
publish = false

[dependencies]
apache-avro = "*"
arrow = { version = "*", default-features = false }
num-traits = "0.2"
tokio = { version = "1", default-features = false, features = ["sync"] }
bincode = { version = "2", features = ["derive"] }
tracing = "0.1"
