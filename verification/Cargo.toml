[package]
name = "lune-std-ffi"
version = "0.1.0"
edition = "2021"
publish = false

[dependencies]
dlopen2 = "0.7"
libffi = "3.2"
mlua = { version = "0.9", features = ["luau"] }
num = "0.4"
