[package]
name = "hr_service"
version = "0.1.0"
edition = "2021"
publish = false

[dependencies]
actix-governor = "=0.8.0"
actix-web = "=4.18.1"
anyhow = "=1.0.104"
argon2 = { version = "=0.5.3", features = ["std"] }
autoscale_cuckoo_filter = { version = "=0.5.27", default-features = false }
chrono = { version = "=0.4.45", features = ["serde"] }
dotenvy = "=0.15.7"
futures = "=0.3.34"
futures-util = "=0.3.34"
jsonwebtoken = "=9.3.1"
log = "=0.4.34"
moka = { version = "=0.12.16", features = ["sync", "future"] }
once_cell = "=1.21.4"
serde = { version = "=1.0.229", features = ["derive"] }
serde_json = "=1.0.154"
sqlx = { version = "=0.8.6", default-features = false, features = ["mysql", "runtime-tokio", "chrono", "derive"] }
tracing = "=0.1.44"
tracing-appender = "=0.2.5"
tracing-subscriber = "=0.3.23"
utoipa = { version = "=5.5.0", features = ["actix_extras", "chrono"] }
utoipa-swagger-ui = { version = "=9.0.2", features = ["actix-web", "vendored"] }
uuid = { version = "=1.29.0", features = ["v4"] }
