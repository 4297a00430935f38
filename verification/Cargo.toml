[package]
name = "jellyfin_exporter"
version = "2.0.0"
edition = "2021"
publish = false

[dependencies]
subtle = "2"
fastrand = "2"
reqwest = { version = "0.12", default-features = false, features = ["json", "rustls-tls"] }
serde = { version = "1", features = ["derive"] }
prometheus = { version = "*", default-features = false }
axum = "*"
tokio = { version = "1", features = ["macros", "rt-multi-thread", "net", "signal", "time", "sync"] }
tokio-util = "0.7"
tracing = "0.1"
tracing-subscriber = { version = "0.3", features = ["env-filter", "fmt"] }
async-trait = "0.1"
futures-util = "0.3"
thiserror = "2"
