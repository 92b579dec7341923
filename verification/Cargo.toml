[package]
name = "poem_pipeline"
version = "0.1.0"
edition = "2021"
publish = false

[dependencies]
async-openai = { version = "=0.42.1", features = ["completions", "image"] }
futures = "=0.3.34"
rand = "=0.10.3"
tokio = { version = "=1.53.2", features = ["macros", "rt-multi-thread"] }
