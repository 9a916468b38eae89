[package]
name = "investigator"
version = "0.1.0"
edition = "2021"
publish = false

[dependencies]
anyhow = "1"
backtrace = "0.3"
chrono = "0.4"
fs4 = "*"
humantime = "2"
log = "0.4"
once_cell = "1"
sysinfo = "*"
tempfile = "3"
trash = "*"
urlencoding = "2"
walkdir = "2"
zip = { version = "*", default-features = false, features = ["bzip2"] }
