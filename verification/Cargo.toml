[package]
name = "aurora"
version = "0.1.0"
edition = "2021"
publish = false

[dependencies]
anyhow = "1"
directories = "5"
gio = "0.18"
glib = "0.18"
gtk4 = "0.7"
libadwaita = { version = "0.5", features = ["v1_4"] }
libc = "0.2"
serde = { version = "1", features = ["derive"] }
serde_json = "1"
ureq = "2"
url = "2"
