[package]
name = "aether_mail"
version = "0.1.0"
edition = "2021"
publish = false

[dependencies]
axum = "*"
bcrypt = "*"
chrono = { version = "*", features = ["serde"] }
diesel = { version = "*", features = ["postgres", "chrono"] }
dotenvy = "*"
jsonwebtoken = "*"
reqwest = { version = "*", features = ["json"] }
serde = { version = "*", features = ["derive"] }
serde_json = "*"
tokio = { version = "*", features = ["macros", "rt-multi-thread", "net", "time"] }
tower-http = { version = "*", features = ["cors"] }
tracing = "*"
tracing-subscriber = "*"
wasm-bindgen = "*"
