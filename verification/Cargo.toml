[package]
name = "octotrack"
version = "0.1.0"
edition = "2021"
publish = false

[dependencies]
serde_json = "1"
kuchiki = "0.8"
chrono = "0.4"
reqwest = { version = "0.12", default-features = false, features = ["json", "rustls-tls"] }
tokio = { version = "1", features = ["macros", "rt-multi-thread", "time", "sync"] }
clap = "4"
colored = "2"
