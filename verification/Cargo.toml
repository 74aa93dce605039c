[package]
name = "apartment_ics"
version = "0.1.0"
edition = "2021"
publish = false

[dependencies]
axum = "0.8"
chrono = { version = "0.4", default-features = false }
icalendar = "*"
reqwest = { version = "0.12", default-features = false, features = ["rustls-tls"] }
serde = { version = "1", features = ["derive"] }
shuttle-axum = "*"
shuttle-runtime = "*"
tokio = "1"
tower = "0.5"
tower-http = { version = "0.6", features = ["cors"] }
utoipa = "5"
utoipa-swagger-ui = { version = "9", features = ["axum", "vendored"] }

[dev-dependencies]
serde_json = "1"
