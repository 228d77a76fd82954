[package]
name = "macrotool"
version = "0.1.0"
edition = "2021"
publish = false

[dependencies]
kdl = "*"
image = { version = "*", default-features = false, features = ["png"] }
serde = { version = "*", features = ["derive"] }
serde_json = "*"
evdev = "*"
x11 = { version = "*", features = ["xlib"] }
gtk4 = "*"
glib = "*"
ksni = "*"
libc = "*"
crossbeam-channel = "*"
parking_lot = "*"
once_cell = "*"
log = "*"
signal-hook = "*"
tempfile = "*"
