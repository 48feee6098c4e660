[package]
name = "xime"
version = "0.1.0"
edition = "2021"
publish = false

[dependencies]
anyhow = "1"
chrono = "0.4"
futures-lite = "2"
iced_tiny_skia = { version = "0.14", features = ["svg"] }
iced_widget = { version = "0.14", features = ["svg"] }
rusqlite = { version = "0.32", features = ["bundled"] }
serde_json = "1"
sha2 = "0.10"
tiny-skia = "0.11"
tokio = { version = "1", features = ["full"] }
tracing = "0.1"
tracing-appender = "0.2"
tracing-subscriber = { version = "0.3", features = ["env-filter"] }
wayland-client = "0.31"
wayland-protocols = { version = "0.32", features = ["client", "staging"] }
wayland-protocols-wlr = { version = "0.3", features = ["client"] }
zbus = { version = "5", default-features = false, features = ["tokio"] }
