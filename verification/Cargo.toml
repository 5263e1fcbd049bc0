[package]
name = "azlang"
version = "0.1.0"
edition = "2021"
publish = false

[dependencies]
bumpalo = "3"
thiserror = "2"
color-eyre = "0.6"
peekmore = "1"
