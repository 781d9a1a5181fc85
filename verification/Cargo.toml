[package]
name = "blitz_l10n"
version = "0.1.0"
edition = "2021"
publish = false

[dependencies]
sha2 = "0.10"
hex = "0.4"
roxmltree = "0.20"
serde = { version = "1", features = ["derive"] }
serde_json = "1"
chrono = { version = "0.4", default-features = false, features = ["clock"] }
log = "0.4"
reqwest = { version = "0.12", default-features = false, features = ["stream"] }
futures-util = "0.3"
tokio = { version = "1", features = ["rt"] }
sevenz-rust = "0.6"
winreg = "0.52"
