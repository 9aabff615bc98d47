[package]
name = "taste_app"
version = "0.1.0"
edition = "2021"
publish = false

[dependencies]
anyhow = "1"
async-channel = "2"
ec4rs = "1"
evdev = "0.13"
gtk4 = "*"
ignore = "0.4"
libadwaita = "*"
similar = "2"
sourceview5 = "*"
tokio = { version = "1", features = ["process", "rt-multi-thread", "time"] }
tracing = "0.1"
vte4 = "*"
