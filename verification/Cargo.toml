[package]
name = "reqcraft"
version = "0.1.0"
edition = "2021"
publish = false

[dependencies]
serde_json = "*"
serde_yaml = "*"
serde = { version = "*", features = ["derive"] }
clap = { version = "*", features = ["derive"] }
axum = { version = "*", features = ["ws"] }
tokio = { version = "*", features = ["full"] }
tower-http = { version = "*", features = ["cors"] }
tracing = "*"
tracing-subscriber = { version = "*", features = ["env-filter"] }
notify = "*"
reqwest = { version = "*", default-features = false, features = ["blocking", "stream", "json"] }
mime_guess = "*"
urlencoding = "*"
