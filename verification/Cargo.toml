[package]
name = "pyo3_gevent"
version = "0.1.0"
edition = "2021"
publish = false

[dependencies]
pyo3 = "0.26"
tokio = { version = "1", features = ["rt-multi-thread", "time"] }
once_cell = "1"
tracing = "0.1"
tracing-subscriber = { version = "0.3", features = ["env-filter", "fmt"] }
