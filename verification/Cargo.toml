[package]
name = "daily_bird"
version = "0.1.0"
edition = "2021"
publish = false

[dependencies]
rand = "0.9"
rand_chacha = "0.9"
chrono = "0.4"
serde = { version = "1", features = ["derive"] }
serde_json = "1"
toml = "*"
axum = "0.8"
axum-extra = { version = "*", features = ["query", "typed-header"] }
tokio = { version = "1", features = ["macros", "rt-multi-thread", "net"] }
tower = "*"
tower-http = { version = "*", features = ["fs", "set-header", "validate-request", "auth"] }
