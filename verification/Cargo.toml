[package]
name = "android_meta"
version = "0.1.0"
edition = "2021"
publish = false

[dependencies]
elementtree = "*"
java-properties = "*"
uuid = "*"
