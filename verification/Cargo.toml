[package]
name = "anonydcm"
version = "0.1.0"
edition = "2021"
publish = false

[dependencies]
clap = "2"
dicom = { version = "*", default-features = false }
walkdir = "2"
