[package]
name = "swd_driver"
version = "0.1.0"
edition = "2021"
publish = false

[dependencies]
esp32-hal = "*"
esp-backtrace = "*"
