[package]
name = "nc_parser"
version = "0.1.0"
edition = "2021"

[dependencies]
thiserror = "1.0"

[dev-dependencies]
nom = "7.1"
