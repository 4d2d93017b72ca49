[package]
name = "russenger"
version = "0.1.0"
edition = "2021"
publish = false

[dependencies]
serde = { version = "=1.0.229", features = ["derive"] }
serde_json = "=1.0.154"
tokio = { version = "=1.54.1", features = ["sync", "macros", "rt-multi-thread"] }
rocket = { version = "=0.5.2", features = ["json"] }
rocket_cors = "=0.6.0"
dotenv = "=0.15.0"
libsql = { version = "=0.10.0", default-features = false, features = ["remote", "tls"] }
async-trait = "=0.1.92"
lazy_static = "=1.5.1"
