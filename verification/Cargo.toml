[package]
name = "quinn-h3"
version = "0.1.0"
edition = "2021"
publish = false

[dependencies]
bytes = "0.4"
http = "0.2"
futures = "0.3"
quinn = "0.5"
