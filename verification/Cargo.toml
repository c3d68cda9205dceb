[package]
name = "jj_starship"
version = "0.1.0"
edition = "2021"
publish = false

[dependencies]
jj-lib = "=0.45.1"
clap = { version = "=4.5.61", features = ["derive"] }
