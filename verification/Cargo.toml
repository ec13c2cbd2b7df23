[package]
name = "zero2prod"
version = "0.1.0"
edition = "2021"
publish = false

[dependencies]
validator = "=0.20.0"
unicode-segmentation = "=1.13.3"
rand = "=0.9.5"
uuid = { version = "=1.29.0", features = ["v4"] }
chrono = { version = "=0.4.45", default-features = false, features = ["clock"] }
secrecy = "=0.10.3"
serde = { version = "=1.0.229", features = ["derive"] }
config = { version = "=0.15.27", default-features = false, features = ["yaml"] }
actix-web = { version = "=4.18.1", default-features = false, features = ["macros"] }
tokio = { version = "=1.54.1", features = ["macros", "rt-multi-thread"] }
sqlx = { version = "=0.8.6", default-features = false, features = ["runtime-tokio", "postgres", "uuid", "chrono", "migrate"] }
reqwest = { version = "=0.12.28", default-features = false, features = ["json"] }
tracing = "=0.1.44"
tracing-actix-web = "=0.7.25"
anyhow = "=1.0.104"
thiserror = "=1.0.69"
