[package]
name = "s502-as"
version = "0.1.0"
edition = "2021"
publish = false

[dependencies]
clap = { version = "3.2", features = ["cargo"] }
codespan-reporting = "0.11"
indoc = "1.0"
logos = "0.12"
