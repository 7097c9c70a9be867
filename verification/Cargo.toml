[package]
name = "ui_solver"
version = "0.1.0"
edition = "2021"

[dependencies]
azul-css = "*"
libm = "0.2"
rayon = "1"
