[package]
name = "monitors"
version = "0.1.0"
edition = "2021"
publish = false

[dependencies]
crossterm = "0.28"
hw-linux = "*"
ratatui = "0.29"
sysinfo = "0.33"
