[package]
name = "padkeys"
version = "0.1.0"
edition = "2021"
publish = false

[dependencies]
tfc = "=0.7.0"
hidapi = { version = "=2.6.7", default-features = false, features = ["linux-native-basic-udev"] }
log = "=0.4.34"
env_logger = "=0.11.11"
