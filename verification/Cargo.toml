[package]
name = "pitchline"
version = "0.1.0"
edition = "2021"
publish = false

[dependencies]
midly = "0.5"
ringbuffer = "*"
clap = { version = "4", features = ["derive"] }
cpal = "*"
crossterm = "0.25"
tui = "0.19"
midir = "*"
