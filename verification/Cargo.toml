[package]
name = "trycli"
version = "0.1.0"
edition = "2021"
publish = false

[dependencies]
url = "2"
pulldown-cmark = { version = "0.12", default-features = false, features = ["html"] }
urlencoding = "2"
serde = { version = "1", features = ["derive"] }
serde_json = "1"
axum = { version = "0.7", features = ["ws"] }
tokio = { version = "1", features = ["full"] }
tower-http = { version = "0.5", features = ["cors"] }
tower-sessions = "0.12"
time = "0.3"
sqlx = { version = "0.8", default-features = false, features = ["runtime-tokio", "postgres", "macros", "migrate"] }
bollard = "0.17"
futures = "0.3"
uuid = { version = "1", features = ["v4"] }
oauth2 = "4.4"
reqwest = { version = "0.12", features = ["json"] }
governor = "0.6"
dashmap = "6"
dotenvy = "0.15"
anyhow = "1"
thiserror = "1"
tracing = "0.1"
