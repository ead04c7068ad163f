[package]
name = "ardewino"
version = "0.1.0"
edition = "2021"
publish = false

[dependencies]
clap = "*"
dotenv = "*"
reqwest = { version = "*", default-features = false, features = ["json"] }
serde_json = "*"
tokio = { version = "*", features = ["macros", "rt-multi-thread", "time", "io-util"] }
tokio-serial = "*"
