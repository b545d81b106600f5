[package]
name = "roguelike"
version = "0.1.0"
edition = "2021"
publish = false

[dependencies]
rand = "0.8"
pancurses = "0.17"
tracing = "0.1"
tracing-appender = "0.2"
tracing-subscriber = "0.3"
