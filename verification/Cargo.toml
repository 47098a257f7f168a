[package]
name = "openwhisperai"
version = "0.1.0"
edition = "2021"
publish = false

[dependencies]
sha2 = "*"
hex = "*"
cpal = "*"
rdev = "*"
arboard = "*"
hound = "*"
tempfile = "*"
tiny_http = "*"
ureq = "*"
signal-hook = "*"
