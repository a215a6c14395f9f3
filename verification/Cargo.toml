[package]
name = "git_sections"
version = "0.1.0"
edition = "2021"
publish = false

[dependencies]
git2 = "*"

[dev-dependencies]
tempfile = "*"
