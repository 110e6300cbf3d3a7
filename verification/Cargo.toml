[package]
name = "tinyprof"
version = "0.1.0"
edition = "2021"
publish = false

[dependencies]
time = "0.1"
vec_map = "0.8"
failure = "0.1"
failure_derive = "0.1"
termion = "1.5"
gag = "0.1"
imgui = "0.0"
lazysort = "*"
