[package]
name = "alacritty-theme-manager"
version = "0.1.0"
edition = "2021"
publish = false

[dependencies]
toml_edit = "0.22"
dirs = "6"
ratatui = "0.29"
crossterm = "0.28"
