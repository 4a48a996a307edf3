[package]
name = "braidpool_node"
version = "0.1.0"
edition = "2021"
publish = false

[dependencies]
bitcoin = "=0.32.102"
hex = "=0.4.3"
rusqlite = { version = "=0.32.1", features = ["bundled"] }
sqlx = { version = "=0.8.6", default-features = false, features = ["sqlite", "runtime-tokio", "regexp"] }
tokio = { version = "=1.54.1", features = ["sync", "macros", "rt-multi-thread"] }
serde = { version = "=1.0.229", features = ["derive"] }
log = "=0.4.35"
anyhow = "=1.0.104"
futures = "=0.3.34"
