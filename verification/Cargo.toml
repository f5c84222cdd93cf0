[package]
name = "fortune_cookies"
version = "0.1.0"
edition = "2021"
publish = false

[dependencies]
axum = "*"
leptos = { version = "*", features = ["ssr"] }
leptos_axum = "*"
leptos_meta = "*"
leptos_router = "*"
reqwest = { version = "*", features = ["json"] }
serde = { version = "*", features = ["derive"] }
tokio = { version = "*", features = ["full"] }
