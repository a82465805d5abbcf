[package]
name = "nertzpro"
version = "0.1.0"
edition = "2021"
publish = false

[dependencies]
gloo = "0.11"
serde = { version = "1", features = ["derive"] }
serde_json = "1"
web-sys = { version = "0.3", features = ["HtmlInputElement", "KeyboardEvent"] }
yew = { version = "0.21", features = ["csr"] }
