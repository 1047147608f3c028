[package]
name = "gpca"
version = "0.1.0"
edition = "2021"
publish = false

[dependencies]
rayon = "*"
dashmap = "*"
rand = "0.8"
image = "*"
colorous = "*"
wgpu = "22"
futures = "*"
bytemuck = "*"
