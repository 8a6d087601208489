[package]
name = "hcwatch"
version = "0.1.0"
edition = "2021"
publish = false

[dependencies]
anyhow = "=1.0.104"
argh = "=0.1.19"
chrono = "=0.4.45"
clap = "=4.6.7"
execute = "=0.2.15"
healthchecks = "=3.3.0"
prettytable-rs = "=0.10.0"
unicode-width = "=0.1.14"
