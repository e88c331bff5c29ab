[package]
name = "transit_model"
version = "0.1.0"
edition = "2021"
publish = false

[dependencies]
csv = "1"
failure = "0.1"
geo-types = "*"
log = "0.4"
proj = "*"
zip = { version = "*", default-features = false, features = ["deflate"] }
