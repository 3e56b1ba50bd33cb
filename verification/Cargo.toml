[package]
name = "rlwy"
version = "0.1.2"
edition = "2021"
publish = false

[dependencies]
anyhow = "1"
clap = { version = "4", features = ["derive"] }
colored = "2"
dialoguer = { version = "0.11", features = ["fuzzy-select"] }
directories = "5"
dotenvy = "0.15"
indicatif = "0.17"
open = "5"
reqwest = { version = "0.12", default-features = false, features = ["json", "rustls-tls"] }
serde = { version = "1", features = ["derive"] }
serde_json = "1"
tabled = "0.16"
tokio = { version = "1", features = ["macros", "rt-multi-thread", "time", "signal"] }
