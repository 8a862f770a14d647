[package]
name = "tarah"
version = "0.1.0"
edition = "2021"
publish = false

[dependencies]
serde_json = "=1.0.154"
clap = { version = "=4.6.7", features = ["derive"] }
colored = "=2.2.0"
git2 = { version = "=0.21.0", default-features = false, features = ["https"] }
random-number = "=0.1.10"
rayon = "=1.12.0"
reqwest = { version = "=0.12.28", default-features = false, features = ["rustls-tls"] }
tokio = { version = "=1.54.1", features = ["macros", "rt-multi-thread"] }
