[package]
name = "gurka"
version = "0.1.0"
edition = "2021"
publish = false

[dependencies]
ring = "0.17"
heck = "0.5"
uuid = { version = "1", features = ["v4"] }
diesel = { version = "2", features = ["postgres", "r2d2"] }
r2d2 = "0.8"
dotenv = "0.15"
juniper = "0.16"
juniper_rocket = "0.9"
rocket = "0.5"
