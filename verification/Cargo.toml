[package]
name = "crawl_session"
version = "0.1.0"
edition = "2021"
publish = false

[dependencies]
crossterm = "0.25"
fantoccini = "*"
tokio = { version = "1", features = ["full"] }
tui = "0.19"
url = "2"
