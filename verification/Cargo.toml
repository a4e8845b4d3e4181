[package]
name = "dafny_runtime"
version = "0.1.0"
edition = "2021"
publish = false

[dependencies]
num = "=0.4.3"
once_cell = "=1.21.4"
itertools = "=0.11.0"
aws-smithy-types = "=1.9.0"
aws-smithy-runtime-api = { version = "=1.19.1", features = ["client"] }
