[package]
name = "sketchbook"
version = "0.1.0"
edition = "2021"
publish = false

[dependencies]
rand = "0.8"
fixedbitset = "0.4"
fastrand = "2"
crossterm = "0.25"
log = "0.4"
