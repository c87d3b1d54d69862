[package]
name = "lowtexpal"
version = "0.1.0"
edition = "2021"

[dependencies]
clap = "4"
css-color = "0.1"
image = "0.24"
