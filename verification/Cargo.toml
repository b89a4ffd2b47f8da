[package]
name = "procdash"
version = "0.1.0"
edition = "2021"
publish = false

[dependencies]
color-eyre = "*"
crossterm = "0.28"
ratatui = "0.29"
sysinfo = "*"
users = "*"
