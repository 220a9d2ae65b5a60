[package]
name = "knock_knock"
version = "0.1.0"
edition = "2021"
publish = false

[dependencies]
askama = { version = "0.12", features = ["with-axum"] }
askama_axum = "0.4"
axum = "0.7"
axum-extra = { version = "0.9", features = ["typed-header"] }
chrono = "0.4"
clap = { version = "4", features = ["derive"] }
jsonwebtoken = "9"
serde = { version = "1", features = ["derive"] }
serde_json = "1"
sqlx = { version = "0.7", default-features = false, features = ["runtime-tokio", "postgres", "migrate"] }
thiserror = "1"
tokio = { version = "1", features = ["full"] }
tower-http = { version = "0.5", features = ["fs", "trace", "cors"] }
tower-sessions = "0.12"
tracing = "0.1"
tracing-subscriber = { version = "0.3", features = ["env-filter"] }
utoipa = { version = "4", features = ["axum_extras"] }
utoipa-rapidoc = { version = "4", features = ["axum"] }
utoipa-redoc = { version = "4", features = ["axum"] }
utoipa-swagger-ui = { version = "7", features = ["axum"] }
