[package]
name = "namelint"
version = "0.1.0"
edition = "2021"
publish = false

[dependencies]
clap = "4"
serde_json = "1"
unicode-normalization = "0.1"
