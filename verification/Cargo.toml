[package]
name = "tackt"
version = "0.1.0"
edition = "2021"
publish = false

[dependencies]
http = "0.2"
tower-service = "0.3"
pin-project = "1"
