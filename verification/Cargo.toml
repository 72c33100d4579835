[package]
name = "wavelog_gate"
version = "0.1.0"
edition = "2021"
publish = false

[dependencies]
serde_json = "=1.0.154"
serde = { version = "=1.0.229", features = ["derive"] }
config = { version = "=0.14.1", default-features = false, features = ["toml", "json", "yaml", "ini"] }
tokio = { version = "=1.54.1", features = ["net", "time"] }
reqwest = { version = "=0.12.28", default-features = false, features = ["rustls-tls"] }
iced = { version = "=0.13.1", default-features = false, features = ["tiny-skia", "tokio"] }
image = { version = "=0.25.10", default-features = false, features = ["png"] }
regex = { version = "=1.13.1", default-features = false, features = ["std", "unicode"] }
