[package]
name = "kosa_interface"
version = "0.1.0"
edition = "2021"
publish = false

[dependencies]
bytes = "1"
tokio-util = { version = "0.7", features = ["codec"] }
tokio = { version = "1", features = ["rt", "time", "macros"] }
tokio-serial = "5"
futures = "0.3"
