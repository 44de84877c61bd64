[package]
name = "cryptocurrency_tracker"
version = "0.1.0"
edition = "2021"
publish = false

[dependencies]
serde_json = "1"
clap = "2"
hyper = "0.10"
hyper-native-tls = "0.3"
