[package]
name = "bevy_llm"
version = "0.1.0"
edition = "2021"
publish = false

[dependencies]
flume = "=0.11.1"
bevy = { version = "=0.16.1", default-features = false, features = ["std", "async_executor", "multi_threaded"] }
llm = { version = "=1.3.8", default-features = false }
tokio = { version = "=1.54.1", features = ["rt-multi-thread"] }
