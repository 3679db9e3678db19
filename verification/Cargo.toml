[package]
name = "qmk_volume"
version = "0.1.0"
edition = "2021"
publish = false

[dependencies]
hidapi = "*"
json = "*"
libspa = "*"
log = "*"
pipewire = "*"
simple_logger = "*"
thiserror = "*"
