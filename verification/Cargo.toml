[package]
name = "rust_clojure"
version = "0.1.0"
edition = "2021"
publish = false

[dependencies]
im-rc = "15.1"
itertools = "0.9"
if_chain = "1.0"
