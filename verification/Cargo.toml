[package]
name = "valentine"
version = "0.1.0"
edition = "2021"
publish = false

[dependencies]
base64 = "*"
bcrypt = "*"
chrono = "*"
html-escape = "*"
humansize = "*"
pulldown-cmark = "*"
sha2 = "*"
rusqlite = { version = "*", features = ["bundled"] }
serde = { version = "*", features = ["derive"] }
toml = "*"
