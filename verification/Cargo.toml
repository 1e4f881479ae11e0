[package]
name = "soltty"
version = "0.1.0"
edition = "2021"
publish = false

[dependencies]
arboard = "3"
clap = { version = "4", features = ["derive"] }
env_logger = "0.11"
etagere = "0.2"
glow = "0.14"
glutin = "0.32"
glutin-winit = "0.5"
libc = "0.2"
log = "0.4"
portable-pty = "0.8"
raw-window-handle = "0.6"
swash = "0.1"
terminal_size = "0.4"
vte = "0.13"
wayland-client = "0.31"
wayland-protocols = { version = "0.32", features = ["client", "staging", "unstable"] }
winit = "0.30"
