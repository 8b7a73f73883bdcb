[package]
name = "auth_core"
version = "0.1.0"
edition = "2021"
publish = false

[dependencies]
bcrypt = "=0.19.3"
jsonwebtoken = { version = "=11.1.0", features = ["rust_crypto"] }
serde = { version = "1", features = ["derive"] }
serde_json = "1"
rand = "=0.8.8"
chrono = "0.4"
axum = "*"
tokio = { version = "1", features = ["rt-multi-thread", "macros", "net", "sync"] }
http = "*"
tower = { version = "*", features = ["buffer", "limit", "util"] }
tower-http = { version = "*", features = ["cors"] }
lettre = { version = "*", default-features = false, features = ["smtp-transport", "builder"] }
tera = { version = "1", default-features = false }
dotenv = "0.15"
