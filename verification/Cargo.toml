[package]
name = "aichat"
version = "0.1.0"
edition = "2021"
publish = false

[dependencies]
anyhow = "=1.0.104"
async-trait = "=0.1.92"
atty = "=0.2.14"
clap = { version = "=4.6.7", features = ["derive"] }
crossbeam = "=0.8.5"
crossterm = "=0.26.1"
ctrlc = "=3.5.2"
futures-util = "=0.3.34"
is-terminal = "=0.4.17"
parking_lot = "=0.12.5"
reqwest = { version = "=0.11.27", default-features = false, features = ["json", "rustls-tls"] }
reqwest-eventsource = "0.5"
serde = { version = "=1.0.229", features = ["derive"] }
serde_json = { version = "=1.0.154", features = ["preserve_order"] }
tokio = { version = "=1.54.1", features = ["rt"] }
unicode-width = "=0.1.14"
