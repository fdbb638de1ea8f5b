[package]
name = "org_reminder"
version = "0.1.0"
edition = "2021"
publish = false

[dependencies]
rayon = "*"
tokio = { version = "*", features = ["fs", "macros", "rt-multi-thread"] }
walkdir = "*"
