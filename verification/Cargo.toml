[package]
name = "rtop"
version = "0.1.0"
edition = "2021"

[dependencies]
sysinfo = "*"
clap = { version = "*", features = ["derive"] }
crossterm = "0.25"
termion = "*"
thiserror = "*"
tui = { version = "0.19", features = ["crossterm"] }
