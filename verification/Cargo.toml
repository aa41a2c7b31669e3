[package]
name = "graft"
version = "0.1.0"
edition = "2021"
publish = false

[dependencies]
clap = "=2.34.0"
diffy = "=0.2.2"
flate2 = "=1.1.10"
reqwest = { version = "=0.11.27", default-features = false, features = ["blocking", "rustls-tls"] }
tar = "=0.4.46"
url = "=2.5.8"
