[package]
name = "monazite"
version = "0.1.0"
edition = "2021"
publish = false

[dependencies]
anyhow = "*"
bincode = "1"
bytes = "*"
clap = { version = "*", features = ["derive"] }
directories = "*"
reqwest = { version = "*", default-features = false, features = ["rustls-tls"] }
serde = { version = "1", features = ["derive"] }
serde_json = "1"
sha2 = "*"
thiserror = "*"
tokio = { version = "1", features = ["sync", "rt", "time"] }
url = "*"
wasmi = "*"
