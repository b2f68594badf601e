[package]
name = "merkle_ledger"
version = "0.1.0"
edition = "2021"
publish = false

[dependencies]
base62 = "2"
gloo-console = "0.2"
js-sys = "0.3"
web-sys = { version = "0.3", features = ["HtmlInputElement"] }
yew = "0.19"
