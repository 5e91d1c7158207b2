[package]
name = "toweroops"
version = "0.1.0"
edition = "2021"
publish = false

[dependencies]
rand = "0.8"
serde = { version = "1", features = ["derive"] }
serde_json = "1"
directories = "*"
fluent-bundle = "*"
unic-langid = "*"
sys-locale = "*"
gtk4 = "*"
cairo-rs = "*"
gdk-pixbuf = "*"
glib = "*"
resvg = "*"
tiny-skia = "*"
