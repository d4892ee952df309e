[package]
name = "gugu"
version = "0.1.0"
edition = "2021"
publish = false

[dependencies]
futures-util = { version = "0.3", default-features = false, features = ["sink", "std"] }
image = { version = "0.25", default-features = false, features = ["gif", "png"] }
serde = { version = "1", features = ["derive"] }
serde_json = "1"
slint = { version = "=1.5.1", default-features = false, features = ["compat-1-2", "std", "renderer-software"] }
tokio = { version = "1", features = ["macros", "net", "rt", "sync", "time"] }
tokio-tungstenite = "0.26"
toml = "0.8"
