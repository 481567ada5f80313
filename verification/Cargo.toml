[package]
name = "zkneural"
version = "0.1.0"
edition = "2021"
publish = false

[dependencies]
image = "*"
serde = "*"
serde_json = "*"
num-traits = "*"
thiserror = "*"
tflitec = "*"
