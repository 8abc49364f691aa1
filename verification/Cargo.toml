[package]
name = "combiner"
version = "0.1.0"
edition = "2021"
publish = false

[dependencies]
flate2 = "*"
tar = "*"
remove_dir_all = "*"
