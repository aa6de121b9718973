[package]
name = "dsn_traveller"
version = "0.1.0"
edition = "2021"
publish = false

[dependencies]
regex = "*"
rand = "*"
clap = "*"
ron = "*"
serde = { version = "*", features = ["derive"] }
serde_json = "*"
url = "*"
chrono = "*"
hostname = "*"
futures-timer = "*"
tokio = { version = "*", features = ["macros", "rt-multi-thread", "time"] }
hyper = { version = "0.14", features = ["client", "http1", "tcp"] }
hyper-tls = "0.5"
ruma-client = "*"
ruma-events = "*"
ruma-identifiers = "*"
