[package]
name = "aqua_web"
version = "0.1.0"
edition = "2021"
publish = false

[dependencies]
regex = "*"
glob = "*"
serde = { version = "*", features = ["derive"] }
serde_json = "*"
mime_guess = "*"
handlebars = "*"
multipart = { version = "*", default-features = false, features = ["server"] }
image = { version = "*", default-features = false, features = ["jpeg", "png"] }
rust-crypto = "*"
