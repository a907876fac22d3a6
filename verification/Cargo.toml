[package]
name = "gdrive_api"
version = "0.1.0"
edition = "2021"
publish = false

[dependencies]
tinyjson = "2"
ureq = "2"
url = "2"
