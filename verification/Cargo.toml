[package]
name = "knot"
version = "0.1.0"
edition = "2021"
publish = false

[dependencies]
bcrypt = "=0.15.1"
rand = "=0.8.8"
change-case = "=0.2.0"
chrono = "=0.4.45"
csv = "=1.4.0"
new_mime_guess = "=4.0.4"
axum = { version = "=0.7.9", features = ["multipart"] }
tokio = { version = "=1.54.1", features = ["full"] }
serde = { version = "=1.0.229", features = ["derive"] }
serde_json = "=1.0.154"
sqlx = { version = "=0.8.6", default-features = false, features = ["runtime-tokio", "postgres", "chrono"] }
lettre = { version = "=0.11.23", default-features = false, features = ["builder", "smtp-transport", "tokio1", "tokio1-rustls-tls"] }
icalendar = "=0.17.17"
liquid = "=0.26.11"
kstring = "=2.0.0"
config = { version = "=0.15.27", default-features = false, features = ["toml"] }
tracing = "=0.1.44"
tracing-subscriber = { version = "=0.3.23", features = ["env-filter"] }
reqwest = { version = "=0.12.28", default-features = false, features = ["json", "rustls-tls"] }
zip = { version = "=2.6.1", default-features = false, features = ["deflate"] }
walkdir = "=2.5.0"
dotenvy = "=0.15.7"
tower-http = { version = "=0.6.11", features = ["fs", "trace"] }
rust-s3 = { version = "0.35", default-features = false, features = ["tokio-rustls-tls"] }
