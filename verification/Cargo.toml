[package]
name = "fixtojson"
version = "0.1.0"
edition = "2021"
publish = false

[dependencies]
clap = { version = "4", features = ["derive"] }
fixparser = "0.1"
flate2 = "1"
serde_json = "1"
