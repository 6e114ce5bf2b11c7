[package]
name = "cordial_shell"
version = "0.1.0"
edition = "2021"
publish = false

[dependencies]
percent-encoding = "2"
serde = { version = "1", features = ["derive"] }
serde_json = "1"
ureq = "3"
zbus = "5"
zip = { version = "*", default-features = false, features = ["deflate"] }
gtk4 = "*"
libadwaita = "*"
webkit6 = "*"
glib = "*"
