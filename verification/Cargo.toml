[package]
name = "plotta"
version = "0.1.0"
edition = "2021"
publish = false

[dependencies]
kurbo = { version = "=0.13.1", features = ["serde"] }
serialport = { version = "=4.10.1", default-features = false }
thiserror = "=2.0.21"
serde = { version = "=1.0.229", features = ["derive"] }
serde_json = "=1.0.154"
roxmltree = "=0.21.2"
svgtypes = "=0.16.1"
rstar = "=0.14.0"
geo = "=0.33.1"
usvg = { version = "=0.49.0", default-features = false }
rand = "=0.8.8"
