[package]
name = "faerber"
version = "0.1.0"
edition = "2021"
publish = false

[dependencies]
base64 = "=0.21.7"
serde_json = "=1.0.154"
lab = "=0.11.0"
deltae = "=0.3.2"
css-color = "=0.2.8"
quick-xml = "=0.31.0"
rayon = "=1.12.0"
clap = { version = "=4.6.7", features = ["derive", "cargo"] }
clap_complete = "4"
image = { version = "=0.24.9", default-features = false, features = ["png", "jpeg"] }
oxipng = { version = "=9.1.5", default-features = false }
