[package]
name = "cmake_parser_derive"
version = "0.1.0"
edition = "2021"
publish = false

[dependencies]
syn = "2"
quote = "1"
proc-macro2 = "1"
inflections = "1.1.1"
proc-macro-error = "1.0.4"
thiserror = "1"
