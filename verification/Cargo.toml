[package]
name = "mycron"
version = "0.1.0"
edition = "2021"
publish = false

[dependencies]
url = "2"
reqwest = { version = "0.12", default-features = false }
tokio = { version = "1", features = ["macros", "rt-multi-thread"] }
ansi_term = "0.12"

[dev-dependencies]
shell-words = "1"
