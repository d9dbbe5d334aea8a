[package]
name = "laser_range_finder"
version = "0.1.0"
edition = "2021"
publish = false

[dependencies]
embedded-hal = "0.2"
fugit = "0.3"
heapless = "0.8"
nb = "1"
