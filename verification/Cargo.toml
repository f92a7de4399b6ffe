[package]
name = "ruma_api_macros"
version = "0.1.0"
edition = "2021"
publish = false

[dependencies]
http = "=0.2.12"
proc-macro2 = { version = "=1.0.107", default-features = false }
quote = { version = "=1.0.47", default-features = false }
serde_json = { version = "=1.0.154", features = ["raw_value"] }
syn = { version = "=1.0.109", default-features = false, features = ["clone-impls", "derive", "full", "parsing", "printing"] }
