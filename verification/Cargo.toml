[package]
name = "youtube_audio_feed"
version = "0.1.0"
edition = "2021"
publish = false

[dependencies]
anyhow = "=1.0.104"
async-trait = "=0.1.92"
atom_syndication = "=0.12.10"
axum = { version = "=0.6.20", features = ["headers"] }
bytes = "=1.12.1"
chrono = "=0.4.45"
futures = "=0.3.34"
http = "=0.2.12"
http-types = { version = "=2.12.0", default-features = false }
itertools = "=0.12.1"
kameo = "=0.22.2"
lru_time_cache = "=0.11.11"
once_cell = "=1.21.4"
rand = "=0.8.8"
regex = "=1.13.1"
reqwest = { version = "=0.11.27", default-features = false, features = ["json", "stream"] }
rss = "2"
rustube = "0.6"
serde = { version = "=1.0.229", features = ["derive"] }
serde_json = "=1.0.154"
serde-query = "=0.2.0"
thiserror = "=1.0.69"
tl = "=0.7.8"
tokio = { version = "=1.54.1", features = ["rt-multi-thread", "macros", "process", "fs", "io-util", "sync", "time", "signal"] }
tokio-util = { version = "=0.7.20", features = ["io"] }
tracing = "=0.1.44"
tracing-subscriber = "=0.3.23"
ytextract = "=0.11.2"
