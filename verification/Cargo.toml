[package]
name = "gitlab_issues"
version = "0.1.0"
edition = "2021"
publish = false

[dependencies]
csv = "*"
serde_json = "*"
uuid = { version = "*", features = ["v4"] }
log = "*"
env_logger = "*"
clap = { version = "*", features = ["derive"] }
reqwest = { version = "*", default-features = false, features = ["blocking", "json"] }
