[package]
name = "lightron"
version = "0.1.0"
edition = "2021"
publish = false

[dependencies]
mime_guess = "*"
rustls-pemfile = "*"
tokio = { version = "*", features = ["full"] }
tokio-rustls = "*"
h2 = "*"
http = "*"
bytes = "*"
toml = "*"
serde = { version = "*", features = ["derive"] }
