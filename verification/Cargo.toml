[package]
name = "pdf_merger"
version = "0.1.0"
edition = "2021"
publish = false

[dependencies]
clap = "3"
printpdf = { version = "0.5", features = ["embedded_images"] }
