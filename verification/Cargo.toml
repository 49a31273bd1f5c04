[package]
name = "universal_machine"
version = "0.1.0"
edition = "2021"
publish = false

[dependencies]
tokio = { version = "1", features = ["full"] }
clap = "4"
crossbeam = "0.8"
