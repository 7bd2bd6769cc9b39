[package]
name = "tokencamp"
version = "0.8.0"
edition = "2021"
publish = false

[dependencies]
sha2 = "0.10"
hex = "0.4"
lru = "0.12"
rand = "0.8"
aes-gcm = "0.10"
serde = { version = "1", features = ["derive"] }
serde_json = "1"
serde_yaml = "0.9"
axum = "0.8"
tokio = { version = "1", features = ["rt-multi-thread", "macros", "net", "time", "sync"] }
reqwest = { version = "0.12", default-features = false, features = ["json", "stream"] }
redis = { version = "0.27", default-features = false, features = ["aio", "tokio-comp"] }
sqlx = { version = "0.8", default-features = false, features = ["runtime-tokio", "postgres", "uuid", "macros"] }
uuid = { version = "1", features = ["v4"] }
futures = "0.3"
bytes = "1"
async-trait = "0.1"
thiserror = "1"
pin-project-lite = "0.2"
clap = { version = "4", features = ["derive"] }
tracing-subscriber = { version = "0.3", features = ["json", "env-filter", "fmt"] }
