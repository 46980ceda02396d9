[package]
name = "warp"
version = "0.1.0"
edition = "2021"
publish = false

[dependencies]
russh = "*"
russh-sftp = "*"
serde = { version = "1", features = ["derive"] }
serde_json = "1"
tokio = { version = "1", features = ["full"] }
anyhow = "1"
