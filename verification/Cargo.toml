[package]
name = "arithmetic_evaluator"
version = "0.1.0"
edition = "2021"
publish = false

[dependencies]
num = "*"
