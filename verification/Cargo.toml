[package]
name = "egui-tracing"
version = "0.1.0"
edition = "2021"
publish = false

[dependencies]
globset = "0.4"
tracing = "0.1"
tracing-subscriber = "0.3"
serde = { version = "1", features = ["derive"] }
egui = "0.29"
egui_extras = "0.29"
