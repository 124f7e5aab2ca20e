[package]
name = "viperus"
version = "0.1.10"
edition = "2021"
publish = false

[dependencies]
clap = "2.33"
dotenv = "0.15"
java-properties = "1"
lazy_static = "1.4"
notify = "4"
serde_json = "1"
serde_yaml = "0.8"
toml = "0.5"
