[package]
name = "opord_parse"
version = "0.1.0"
edition = "2021"
publish = false

[dependencies]
argh = "0.1"
chrono = "0.4"
chrono-humanize = "0.2"
color-eyre = "0.6"
colored = "2"
eyre = "0.6"
handlebars = "4"
serde = { version = "1", features = ["derive"] }
serde_json = "1"
thiserror = "1"
tracing = "0.1"
tracing-subscriber = { version = "0.3", features = ["env-filter"] }
