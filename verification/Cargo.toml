[package]
name = "expander_bringup"
version = "0.1.0"
edition = "2021"
publish = false

[dependencies]
avr-device = { version = "0.5", features = ["atmega1284p", "rt"] }
embedded-hal = "0.2"
mcp23017 = "1.0"
ufmt = { version = "0.2", features = ["std"] }
