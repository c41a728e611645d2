[package]
name = "koan"
version = "0.1.0"
edition = "2021"
publish = false

[dependencies]
chrono = "=0.4.45"
csscolorparser = "=0.9.0"
thiserror = "=2.0.21"
x11 = { version = "=2.21.0", features = ["xlib"] }
