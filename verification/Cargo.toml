[package]
name = "dfdl_vm"
version = "0.1.0"
edition = "2021"
publish = false

[dependencies]
xml-no-std = "*"
regex-automata = "0.4"
