[package]
name = "midi_cc_override"
version = "0.1.0"
edition = "2021"
publish = false

[dependencies]
rustysynth = "*"
clap = { version = "*", features = ["derive"] }
tinyaudio = "*"
