[package]
name = "best_fit_jobs"
version = "0.1.0"
edition = "2021"
publish = false

[dependencies]
actix-multipart = "0.7"
actix-service = "2"
actix-web = "4"
bcrypt = "*"
chrono = "0.4"
colog = "1"
dotenv = "0.15"
futures = "0.3"
futures-util = "0.3"
jsonwebtoken = "9"
log = "0.4"
mongodb = "3"
pdf-extract = "*"
rand = "0.8"
reqwest = { version = "0.12", default-features = false, features = ["json", "multipart", "rustls-tls"] }
sanitize-filename = "*"
serde = { version = "1", features = ["derive"] }
serde_json = "1"
tokio = { version = "1", features = ["fs", "io-util", "macros", "rt-multi-thread"] }
