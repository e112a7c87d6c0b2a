[package]
name = "fwupd_dbus"
version = "0.1.0"
edition = "2021"
publish = false

[dependencies]
md5 = "*"
sha1 = "*"
sha2 = "*"
dbus = "0.6"
progress-streams = "*"
reqwest = { version = "*", default-features = false, features = ["blocking"] }
