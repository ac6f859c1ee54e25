[package]
name = "ttyamat"
version = "0.1.0"
edition = "2021"
publish = false

[dependencies]
alacritty_terminal = "=0.26.0"
thiserror = "=2.0.21"
iced = { version = "=0.14.0", default-features = false, features = ["x11", "thread-pool", "tiny-skia"] }
