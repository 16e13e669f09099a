[package]
name = "livenac"
version = "0.1.0"
edition = "2021"
publish = false

[dependencies]
dirs = "*"
regex = "*"
url = "*"
tokio = { version = "*", features = ["full"] }
reqwest = { version = "*", default-features = false, features = ["json"] }
serde = { version = "*", features = ["derive"] }
serde_json = "*"
tokio-tungstenite = "*"
futures = "*"
webbrowser = "*"
twitch_oauth2 = { version = "*", features = ["client", "reqwest"] }
twitch_types = "*"
