[package]
name = "local_inference"
version = "0.1.0"
edition = "2021"
publish = false

[dependencies]
llama-cpp-2 = { version = "=0.1.146", features = ["mtmd", "sampler"] }
encoding_rs = "=0.8.44"
serde = { version = "=1.0.229", features = ["derive"] }
serde_json = "=1.0.154"
tracing = "=0.1.44"
