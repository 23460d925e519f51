[package]
name = "ant_gateway"
version = "0.1.0"
edition = "2021"
publish = false

[dependencies]
actix-web = "4"

[dev-dependencies]
hex = "0.4"
utf-8 = "0.7"
