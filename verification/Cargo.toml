[package]
name = "loom_core"
version = "0.1.0"
edition = "2021"
publish = false

[dependencies]
async-trait = "0.1"
chrono = { version = "0.4", default-features = false, features = ["clock", "std"] }
derive_more = { version = "2", features = ["display"] }
regex = "1"
serde_json = "1"
smart-default = "0.7"
thiserror = "2"
tokio = { version = "1", default-features = false, features = ["sync", "rt", "macros"] }
uuid = { version = "1", features = ["v4"] }
