[package]
name = "uniname"
version = "0.1.0"
edition = "2021"
publish = false

[dependencies]
unicode_names2 = "*"
rayon = "*"
anyhow = "*"
arboard = "*"
ratatui = "*"
tui-prompts = "*"
