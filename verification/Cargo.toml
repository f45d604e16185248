[package]
name = "desktop_exporter"
version = "0.1.0"
edition = "2021"
publish = false

[dependencies]
regex = "=1.13.1"
serde = { version = "=1.0.229", features = ["derive"] }
serde_json = "=1.0.154"
quick-xml = { version = "=0.42.0", features = ["serialize"] }
clap = { version = "=4.6.7", features = ["derive"] }
ctrlc = "=3.5.2"
hidapi = { version = "=2.6.7", default-features = false, features = ["linux-native-basic-udev"] }
