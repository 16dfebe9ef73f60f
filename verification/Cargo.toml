[package]
name = "aether"
version = "0.1.0"
edition = "2021"
publish = false

[dependencies]
kvm-ioctls = "*"
kvm-bindings = "*"
minifb = "*"
