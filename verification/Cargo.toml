[package]
name = "sphene"
version = "0.1.1"
edition = "2021"
publish = false

[dependencies]
image = { version = "0.25", default-features = false, features = ["jpeg", "png", "webp", "gif", "bmp", "ico", "tiff"] }
webp = "0.3"
libavif-sys = { version = "*", default-features = false }
clap = { version = "4", features = ["derive"] }
thiserror = "2"
