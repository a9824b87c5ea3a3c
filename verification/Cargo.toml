[package]
name = "mine_search"
version = "0.1.0"
edition = "2021"
publish = false

[dependencies]
serde_json = "=1.0.151"
miniz_oxide = "=0.9.1"
rand = "=0.9.5"
rand_chacha = "=0.9.0"
chrono = "0.4"
anyhow = "1"
tracing = "0.1"
tokio = { version = "1", features = ["full"] }
diesel = { version = "2", features = ["serde_json"] }
diesel-async = { version = "=0.9.2", features = ["postgres", "deadpool"] }
