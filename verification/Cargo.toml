[package]
name = "decoder_8086"
version = "0.1.0"
edition = "2021"
publish = false

[dependencies]
clap = "4"
