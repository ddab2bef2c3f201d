[package]
name = "ahndn_client"
version = "0.1.0"
edition = "2021"
publish = false

[dependencies]
clap = "2"
redox_liner = "*"
serde = { version = "1", features = ["derive"] }
serde_json = "1"

[dev-dependencies]
nom = "7"
