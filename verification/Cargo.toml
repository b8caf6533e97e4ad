[package]
name = "celeste"
version = "0.1.0"
edition = "2021"
publish = false

[dependencies]
cranelift = "=0.108.0"
cranelift-module = "=0.108.0"
cranelift-native = "=0.108.0"
cranelift-object = "=0.108.0"
clap = { version = "4", features = ["derive"] }
