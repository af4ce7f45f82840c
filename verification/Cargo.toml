[package]
name = "gwatson"
version = "0.1.0"
edition = "2021"
publish = false

[dependencies]
gtk4 = "*"
glib = "*"
log = "0.4"
