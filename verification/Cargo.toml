[package]
name = "kurogane"
version = "0.1.0"
edition = "2021"
publish = false

# `dox` compiles the CEF bindings without a CEF distribution at hand; a build
# that links an executable leaves it out.
[dependencies]
cef = { version = "=156.3.0", default-features = false, features = ["dox"] }
ctrlc = "=3.5.2"
serde = { version = "=1.0.229", features = ["derive"] }
serde_json = "=1.0.154"
objc2 = "=0.6.5"
objc2-app-kit = "=0.3.2"
