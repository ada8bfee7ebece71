[package]
name = "pgfga"
version = "0.1.0"
edition = "2021"
publish = false

[dependencies]
pgrx = "0.11"
serde = { version = "1", features = ["derive"] }
serde_json = "1"
thiserror = "1"
