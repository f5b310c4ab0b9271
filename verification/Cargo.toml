[package]
name = "load_balancer"
version = "0.1.0"
edition = "2021"
publish = false

[dependencies]
actix-web = { version = "4", default-features = false }
clap = { version = "4", features = ["derive"] }
log = "0.4"
reqwest = { version = "0.11", default-features = false }
simple_logger = "4"
tokio = { version = "1", features = ["macros", "rt-multi-thread", "sync", "time"] }
