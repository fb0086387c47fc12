[package]
name = "rlisp"
version = "0.1.0"
edition = "2021"
publish = false

[dependencies]
regex = "=1.13.1"
inkwell = { version = "=0.5.0", features = ["llvm14-0-force-dynamic"] }

[dev-dependencies]
combine = "=3.8.1"
