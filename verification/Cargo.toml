[package]
name = "sepic_control"
version = "0.1.0"
edition = "2021"
publish = false

[dependencies]
chrono = "=0.4.45"
tokio = { version = "=1.53.2", features = ["net", "rt", "rt-multi-thread"] }
