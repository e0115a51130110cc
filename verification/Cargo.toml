[package]
name = "aptabase"
version = "0.1.0"
edition = "2021"
publish = false

[dependencies]
sha2 = "0.10"
machine-uid = "*"
time = { version = "0.3", features = ["formatting"] }
serde_json = "1"
serde = { version = "1", features = ["derive"] }
reqwest = { version = "0.12", default-features = false, features = ["json"] }
tokio = { version = "1", features = ["rt-multi-thread", "macros", "time"] }
futures = "0.3"
os_info = "3"
sys-locale = "0.3"
