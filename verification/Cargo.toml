[package]
name = "git_ca"
version = "0.1.0"
edition = "2021"
publish = false

[dependencies]
rand = "0.9"
llama-cpp-sys-2 = "*"
git2 = { version = "*", default-features = false }
hf-hub = { version = "*", default-features = false, features = ["ureq"] }
