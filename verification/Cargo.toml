[package]
name = "soil_watering"
version = "0.1.0"
edition = "2021"
publish = false

[dependencies]
esp-idf-hal = "0.44"
esp-idf-sys = "0.35"
hd44780-driver = "0.4"
