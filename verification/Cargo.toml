[package]
name = "nestix-native-winui"
version = "0.1.0"
edition = "2021"
publish = false

[dependencies]
taffy = "0.9.2"
windows-core = "0.62.2"
