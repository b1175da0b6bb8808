[package]
name = "egui-tracing"
version = "0.1.0"
edition = "2021"
publish = false

[dependencies]
chrono = "0.4"
egui = "0.29"
egui_extras = "0.29"
globset = "0.4"
serde = { version = "1", features = ["derive"] }
tracing = "0.1"
tracing-core = "0.1"
tracing-log = "0.2"
tracing-subscriber = "0.3"
unicode-segmentation = "1"
