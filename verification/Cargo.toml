[package]
name = "mackey"
version = "0.1.0"
edition = "2021"
publish = false

[dependencies]
evdev = "0.13"
zbus = "5"
inotify = "0.11"
signal-hook = "0.3"
gtk4 = "0.9"
libadwaita = "0.7"
