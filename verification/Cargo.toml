[package]
name = "rquake"
version = "0.1.0"
edition = "2021"
publish = false

[dependencies]
byteorder = "1"
riff-wave = "*"
clap = "2"
time = "0.1"
winapi = "0.2"
user32-sys = "0.2"
kernel32-sys = "0.2"
gdi32-sys = "0.2"
