[package]
name = "rustone"
version = "0.1.0"
edition = "2021"
publish = false

[dependencies]
toml = "=0.5.11"
serde = { version = "=1.0.229", features = ["derive"] }
reqwest = { version = "=0.11.27", features = ["json"] }
tokio = { version = "=1.54.1", features = ["full"] }
futures = "=0.3.34"
indicatif = "0.17"
clap = "=2.34.0"
directories = "=4.0.1"
ansi_term = "=0.12.1"
atty = "=0.2.14"
warp = "=0.3.7"
json = "=0.12.4"
http = "=0.2.12"
