[package]
name = "nawi"
version = "0.1.0"
edition = "2021"
publish = false

[dependencies]
amaru-kernel = "*"
amaru-plutus = "*"
anyhow = "1"
blockfrost = "*"
chrono = "0.4"
clap = { version = "4", features = ["derive"] }
figment = { version = "0.10", features = ["toml", "env"] }
futures = "0.3"
hex = "0.4"
serde = { version = "1", features = ["derive"] }
tokio = { version = "1", features = ["macros", "rt-multi-thread"] }
