[package]
name = "diffscreen"
version = "0.1.0"
edition = "2021"
publish = false

[dependencies]
flate2 = "1.0"
rayon = "1"
enigo = "0.1"
fltk = "1.4"
