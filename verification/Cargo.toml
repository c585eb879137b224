[package]
name = "darp"
version = "0.1.0"
edition = "2021"
publish = false

[dependencies]
anyhow = "1"
clap = { version = "4", features = ["derive"] }
clap_complete = "4"
colored = "2"
ctrlc = "3"
dirs = "5"
serde = { version = "1", features = ["derive"] }
serde_json = "1"
