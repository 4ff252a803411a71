[package]
name = "blog"
version = "0.1.0"
edition = "2021"
publish = false

[dependencies]
axum = { version = "=0.8.9", default-features = false, features = ["json", "query", "original-uri"] }
axum-extra = { version = "=0.10.3", features = ["typed-header"] }
axum-htmx = "=0.7.0"
chrono = { version = "0.4", default-features = false, features = ["alloc", "std"] }
console_error_panic_hook = "0.1"
iconify = "=0.3.1"
matter = "=0.1.0-alpha4"
maud = { version = "=0.27.0", features = ["axum"] }
pulldown-cmark = "=0.13.6"
serde = { version = "1", features = ["derive"] }
serde_json = "1"
tower-http = { version = "=0.6.11", features = ["cors"] }
tower-service = "0.3"
worker = { version = "=0.6.7", features = ["http", "axum", "d1"] }
yaml-rust = "0.4"

[dev-dependencies]
glob = "0.3"
