[package]
name = "baker"
version = "0.1.0"
edition = "2021"
publish = false

[dependencies]
anyhow = "1"
uuid = { version = "1", features = ["v4"] }
rust-i18n = "3"
dioxus = { version = "0.7", default-features = false, features = ["macro", "html", "signals", "hooks", "router", "document", "asset", "logger"] }
