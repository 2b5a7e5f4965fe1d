[package]
name = "yimai"
version = "0.1.0"
edition = "2021"
publish = false

[dependencies]
regex = "=1.13.1"
serde_json = "=1.0.154"
serde = { version = "=1.0.229", features = ["derive"] }
ureq = { version = "=2.12.1", features = ["json"] }
percent-encoding = "=2.3.2"
walkdir = "2"
rayon = "1"
lofty = "0.22"
image = { version = "0.25", default-features = false, features = ["png", "jpeg"] }
