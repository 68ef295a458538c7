[package]
name = "payment_gateway"
version = "0.1.0"
edition = "2021"
publish = false

[dependencies]
uuid = { version = "*", features = ["serde"] }
chrono = { version = "*", features = ["serde"] }
axum = "*"
tokio = { version = "*", features = ["full"] }
serde = { version = "*", features = ["derive"] }
serde_json = "*"
reqwest = { version = "*", default-features = false, features = ["json"] }
bb8 = "*"
bb8-postgres = "*"
bb8-redis = "*"
redis = "*"
tokio-postgres = { version = "*", features = ["with-chrono-0_4", "with-uuid-1"] }
tower = { version = "*", features = ["buffer", "limit", "timeout"] }
hyper = "*"
