[package]
name = "bluetooth-monitor"
version = "0.7.0"
edition = "2021"
publish = false

[dependencies]
anyhow = "1.0.104"
btleplug = "0.13.1"
chrono = "0.4.45"
crc = "3.4.0"
csv = "1.4.0"
eframe = { version = "0.36.2", default-features = false, features = ["default_fonts", "glow", "persistence", "x11"] }
egui_plot = "0.37.0"
futures = "0.3.34"
rfd = { version = "0.17.2", default-features = false, features = ["xdg-portal"] }
serde = { version = "1.0.229", features = ["derive"] }
serde_json = "1.0.151"
thiserror = "2.0.20"
tokio = { version = "1.53.1", features = ["rt-multi-thread", "sync", "time", "macros"] }
tracing = "0.1.44"
tracing-subscriber = { version = "0.3.23", features = ["env-filter"] }
uuid = "1.26.1"
