[package]
name = "animal_combat"
version = "0.1.0"
edition = "2021"
publish = false

[dependencies]
chrono = "=0.4.45"
rand = "=0.8.8"
regex = "=1.13.1"
argon2 = "0.5"
dotenvy = "0.15"
futures = "0.3"
http = "0.2"
jsonwebtoken = "8"
prost = "0.11"
prost-types = "0.11"
rand_core = { version = "0.6", features = ["std"] }
serde = { version = "1", features = ["derive"] }
serde_json = "1"
skillratings = "*"
sqlx = { version = "0.6", default-features = false, features = ["runtime-tokio-rustls", "postgres", "chrono", "macros"] }
tokio = { version = "1", features = ["full"] }
tokio-stream = "0.1"
tonic = "0.9"
tonic-health = "0.9"
tonic-web = "0.9"
tower = { version = "0.4", features = ["timeout"] }
tower-http = { version = "0.4", features = ["cors", "trace"] }
tracing = { version = "0.1", features = ["log"] }
tracing-subscriber = "0.3"
uuid = { version = "1", features = ["v4"] }
