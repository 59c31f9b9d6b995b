[package]
name = "elastic_exporter"
version = "0.1.0"
edition = "2021"
publish = false

[dependencies]
chrono = "=0.4.45"
clap = "=4.6.7"
hyper = { version = "=0.14.32", features = ["client", "http1", "tcp"] }
log = "=0.4.34"
metrics = "=0.24.6"
tokio = { version = "=1.53.2", features = ["rt", "macros", "time"] }
url = "=2.5.8"
