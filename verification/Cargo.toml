[package]
name = "iroh_fm"
version = "0.1.0"
edition = "2021"
publish = false

[dependencies]
axum = { version = "=0.8.9", default-features = false, features = ["http1", "query", "tokio"] }
iroh = { version = "=1.4.1", default-features = false, features = ["tls-ring"] }
iroh-tickets = "=1.0.0"
lofty = { version = "=0.24.0", default-features = false }
md5 = "=0.8.1"
notify = { version = "=8.2.1", default-features = false }
rayon = "=1.12.0"
reqwest = { version = "=0.13.5", default-features = false, features = ["blocking", "json", "query"] }
rusqlite = { version = "=0.37.0", default-features = false, features = ["bundled"] }
serde = { version = "1", features = ["derive"] }
serde_json = "=1.0.154"
thiserror = "2"
tokio = { version = "1", features = ["rt-multi-thread", "macros", "net", "fs", "io-util", "signal", "sync", "time"] }
