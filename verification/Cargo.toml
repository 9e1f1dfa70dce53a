[package]
name = "studenvue"
version = "0.1.0"
edition = "2021"
publish = false

[dependencies]
quick-xml = "=0.30.0"
serde = { version = "=1.0.229", features = ["derive"] }
thiserror = "=2.0.21"
base64 = "=0.23.1"
reqwest = { version = "=0.13.5", default-features = false, features = ["blocking", "cookies"] }
