[package]
name = "json_type_report"
version = "0.1.0"
edition = "2021"
publish = false

[dependencies]
serde_json = "*"
term-table = "*"
clap = "*"
env_logger = "*"
log = "*"
