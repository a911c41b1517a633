[package]
name = "google_search"
version = "0.1.0"
edition = "2021"
publish = false

[dependencies]
roxmltree = "*"
urlencoding = "*"
webbrowser = "*"
reqwest = { version = "*", default-features = false, features = ["blocking"] }
