[package]
name = "equilibrium"
version = "0.1.0"
edition = "2021"
publish = false

[dependencies]
rand = "*"
noise = "*"
geo = "*"
image = "*"
project-root = "*"
