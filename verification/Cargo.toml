[package]
name = "crypto_analyzer"
version = "0.1.0"
edition = "2021"
publish = false

[dependencies]
anyhow = "=1.0.104"
chrono = "=0.4.45"
dotenv = "=0.15.0"
eframe = { version = "=0.37.0", default-features = false, features = ["default_fonts", "glow", "x11"] }
egui_extras = { version = "=0.37.0", default-features = false }
reqwest = { version = "=0.12.28", default-features = false, features = ["json", "rustls-tls"] }
serde = { version = "=1.0.229", features = ["derive"] }
serde_json = "=1.0.154"
thousands = "=0.2.0"
tokio = { version = "=1.54.1", features = ["rt-multi-thread", "macros", "sync"] }
