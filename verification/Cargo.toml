[package]
name = "casp_backend"
version = "0.1.0"
edition = "2021"
publish = false

[dependencies]
alloy = { version = "=2.5.0", default-features = false, features = ["std", "provider-http", "reqwest", "signer-local", "sol-types"] }
axum = { version = "*", default-features = false, features = ["http1", "json", "query", "tokio"] }
dotenvy = "=0.15.7"
reqwest = { version = "*", default-features = false, features = ["json"] }
serde = { version = "=1.0.229", features = ["derive"] }
serde_json = "=1.0.154"
thiserror = "=2.0.21"
tokio = { version = "*", features = ["macros", "rt-multi-thread", "net", "time", "sync"] }
