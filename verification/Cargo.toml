[package]
name = "geotag"
version = "0.1.0"
edition = "2021"
publish = false

[dependencies]
chrono = "*"
clap = { version = "*", features = ["derive"] }
glob = "*"
gpx = "*"
little_exif = "*"
