[package]
name = "freegsm"
version = "0.1.0"
edition = "2021"
publish = false

[dependencies]
anyhow = "1"
ctrlc = "3"
log = "0.4"
socket2 = "0.5"
