[package]
name = "gpt_sovits_rs"
version = "0.1.0"
edition = "2021"
publish = false

[dependencies]
anyhow = "=1.0.104"
axum = "=0.8.9"
base64 = "=0.22.1"
candle-core = "=0.9.2"
candle-nn = "=0.9.2"
candle-transformers = "=0.9.2"
clap = { version = "=4.6.7", features = ["derive"] }
half = "=2.7.1"
hound = "=3.5.1"
jieba-rs = "=0.8.1"
pinyin = "=0.11.0"
rand = "0.9"
safetensors = "=0.7.0"
serde = { version = "=1.0.229", features = ["derive"] }
serde_json = "=1.0.154"
soxr = "=0.6.0"
thiserror = "=2.0.21"
tokenizers = { version = "0.21", default-features = false, features = ["onig"] }
tokio = { version = "=1.54.1", features = ["full"] }
tokio-stream = "=0.1.19"
tower-http = { version = "0.6", features = ["trace"] }
tracing = "=0.1.44"
tracing-subscriber = { version = "=0.3.23", features = ["env-filter"] }
zip = { version = "7", default-features = false, features = ["deflate"] }
