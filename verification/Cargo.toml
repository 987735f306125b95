[package]
name = "synsyu_core"
version = "0.1.0"
edition = "2021"
publish = false

[dependencies]
urlencoding = "2"
reqwest = { version = "0.12", default-features = false, features = ["json"] }
tokio = { version = "1", features = ["rt-multi-thread", "macros", "process", "sync", "time"] }
serde = { version = "1", features = ["derive"] }
serde_json = "1"
chrono = "0.4"
sha2 = "0.10"
clap = { version = "4", features = ["derive"] }
