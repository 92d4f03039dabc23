[package]
name = "ludusavi"
version = "0.1.0"
edition = "2021"
publish = false

[dependencies]
chrono = { version = "0.4", default-features = false, features = ["std", "clock"] }
log = "0.4"
reqwest = { version = "0.11", default-features = false, features = ["blocking"] }
schemars = "0.8"
serde = { version = "1", features = ["derive"] }
serde_json = "1"
serde_yaml = "0.9"
shlex = "1"
tokio = { version = "1", features = ["macros", "rt", "sync", "time"] }
winapi = { version = "0.3", features = ["winbase"] }
