[package]
name = "meetily_models"
version = "0.1.0"
edition = "2021"
publish = false

[dependencies]
uuid = { version = "1", features = ["v4"] }
serde = { version = "1", features = ["derive"] }
serde_json = "1"
anyhow = "1"
log = "0.4"
dirs = "5"
tokio = { version = "1", features = ["fs", "io-util", "process", "time", "rt", "rt-multi-thread", "macros", "sync"] }
reqwest = { version = "0.12", default-features = false, features = ["json", "stream"] }
futures-util = "0.3"
futures = "0.3"
sysinfo = "0.33"
tracing = "0.1"
async-trait = "0.1"
