[package]
name = "md-slide"
version = "0.1.0"
edition = "2021"
publish = false

[dependencies]
async-std = "1"
mime = "0.3"
mime_guess = "2"
percent-encoding = "2"
pulldown-cmark = { version = "*", default-features = false, features = ["html"] }
structopt = "0.3"
tera = "1"
tide = "0.6"
