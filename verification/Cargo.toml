[package]
name = "ohlc_indicators"
version = "0.1.0"
edition = "2021"
publish = false

[dependencies]
csv = "1"
eframe = { version = "0.19", features = ["persistence"] }
egui = "0.19"
serde = { version = "1", features = ["derive"] }
