[package]
name = "roc_analysis"
version = "0.1.0"
edition = "2021"
publish = false

[dependencies]
bumpalo = "3"
tower-lsp = "0.17"
