[package]
name = "capla_extractor"
version = "0.1.0"
edition = "2021"
publish = false

[dependencies]
chumsky = "0.10"
anyhow = "1"
clap = { version = "4", features = ["derive"] }
glob = "0.3"
crossterm = "0.28"
ratatui = "0.29"
ocaml-interop = "*"
