[package]
name = "opcua_server"
version = "0.1.0"
edition = "2021"
publish = false

[dependencies]
chrono = "0.4"
futures = "0.1"
log = "0.4"
tokio = "0.1"
tokio-io = "0.1"
tokio-timer = "0.2"
