[package]
name = "irace_rs"
version = "0.1.0"
edition = "2021"
publish = false

[dependencies]
downcast-rs = "*"
dyn-clone = "*"
eyre = "*"
indexmap = "*"
mahf = "*"
num = "*"
pyo3 = { version = "0.19", features = ["auto-initialize"] }
trait-set = "*"
typed-builder = "*"
