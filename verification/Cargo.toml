[package]
name = "sendlist"
version = "0.1.0"
edition = "2021"
publish = false

[dependencies]
clap = { version = "4", features = ["derive"] }
csv = "1"
dotenv = "0.15"
handlebars = "*"
lettre = "0.11"
serde = { version = "1", features = ["derive"] }
tap = "1"
