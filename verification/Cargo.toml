[package]
name = "babel_solver"
version = "0.1.0"
edition = "2021"
publish = false

[dependencies]
pubgrub = "0.3"
semver = "1"
serde_json = "1"
clap = { version = "4", features = ["derive"] }
