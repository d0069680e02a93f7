[package]
name = "fwaifu"
version = "0.1.0"
edition = "2021"
publish = false

[dependencies]
rand = "0.8"
toml = "0.8"
toml_edit = "0.22"
clap = { version = "4", features = ["derive"] }
clap_complete = "4"
dirs = "5"
libc = "0.2"
reqwest = { version = "0.12", default-features = false, features = ["json", "rustls-tls"] }
serde = { version = "1", features = ["derive"] }
serde_json = "1"
tokio = { version = "1", features = ["full"] }
