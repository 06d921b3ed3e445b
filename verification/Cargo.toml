[package]
name = "lcov_aggregator_report"
version = "0.1.0"
edition = "2021"
publish = false

[dependencies]
lcov = "*"
htmlescape = "*"
pathdiff = "*"
serde = { version = "1", features = ["derive"] }
toml = "*"
