[package]
name = "elvish"
version = "0.1.0"
edition = "2021"
publish = false

[dependencies]
jiff = "*"
tl = "*"
mdka = "*"
reqwest = { version = "*", default-features = false, features = ["blocking"] }
clap = { version = "*", features = ["derive"] }
arboard = "*"
