[package]
name = "jubako"
version = "0.1.0"
edition = "2021"
publish = false

[dependencies]
axum = { version = "=0.6.20", features = ["ws"] }
lightningcss = "=1.0.0-alpha.40"
mime_guess = "=2.0.5"
# Held back for lightningcss, which does not compile against later 0.25 releases.
parcel_selectors = "=0.25.1"
parking_lot = "=0.12.5"
rust-embed = "=6.8.1"
serde = { version = "=1.0.229", features = ["derive"] }
serde_json = "=1.0.154"
tokio = { version = "=1.54.1", features = ["sync", "rt", "rt-multi-thread", "macros"] }
typeshare = "=1.0.5"
uuid = { version = "=1.29.0", features = ["v4"] }
