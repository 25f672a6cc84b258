[package]
name = "lndev_site"
version = "0.1.0"
edition = "2021"
publish = false

[dependencies]
anyhow = "*"
askama = "*"
estimated_read_time = "*"
gray_matter = "*"
markdown = "*"
minify-html = "*"
url = "*"
walkdir = "*"
