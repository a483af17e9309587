[package]
name = "submodule-kit"
version = "0.1.0"
edition = "2021"
publish = false

[dependencies]
git2 = { version = "=0.20.4", default-features = false, features = ["vendored-libgit2", "https"] }
clap = { version = "=4.6.7", features = ["derive"] }
clap-markdown = "=0.1.5"

[dev-dependencies]
tempfile = "=3.27.0"
