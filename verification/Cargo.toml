[package]
name = "workspace_ops"
version = "0.1.0"
edition = "2021"
publish = false

[dependencies]
regex = "=1.13.1"
glob = "=0.3.4"
serde_json = "=1.0.154"
ignore = "0.4"
