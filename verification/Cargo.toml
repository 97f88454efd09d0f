[package]
name = "directory_lines_streamer"
version = "0.1.0"
edition = "2021"
publish = false

[dependencies]
alphanumeric-sort = "*"
log = "*"
