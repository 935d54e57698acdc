[package]
name = "pdf_vectors"
version = "0.1.0"
edition = "2021"
publish = false

[dependencies]
lopdf = "*"
dxf = "*"
image = { version = "*", default-features = false, features = ["png"] }
log = "0.4"
