[package]
name = "volcano"
version = "0.1.0"
edition = "2021"
publish = false

[dependencies]
byteorder = "=1.5.0"
pulseaudio = "=0.3.2"
ringbuf = "=0.4.8"
mpris = "=2.1.0"
clap = { version = "=4.6.7", features = ["derive"] }
