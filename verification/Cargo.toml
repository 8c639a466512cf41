[package]
name = "nun"
version = "0.1.0"
edition = "2021"
publish = false

[dependencies]
crossterm = "=0.28.1"
ratatui = "=0.29.0"
ropey = { version = "=1.6.1", default-features = false, features = ["simd"] }
unicode-segmentation = "=1.13.3"
unicode-width = "=0.2.0"
