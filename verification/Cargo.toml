[package]
name = "text_to_barcodeaudio"
version = "0.1.0"
edition = "2021"
publish = false

[dependencies]
hound = "3"
structopt = "0.3"
