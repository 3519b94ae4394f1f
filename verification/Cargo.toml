[package]
name = "rmbg"
version = "0.1.0"
edition = "2021"
publish = false

[dependencies]
anyhow = "=1.0.104"
base64 = "=0.22.1"
fast_image_resize = "=5.5.0"
image = { version = "=0.25.10", default-features = false, features = ["png", "jpeg", "webp"] }
ndarray = "=0.16.1"
ort = { version = "=2.0.0-rc.8", default-features = false, features = ["half", "load-dynamic", "ndarray"] }
# ort is built on the ort-sys of its own release and asks for it loosely;
# left to itself the requirement resolves to a later ort-sys that ort
# 2.0.0-rc.8 does not compile against. Nothing in the crate calls ort-sys.
ort-sys = { version = "=2.0.0-rc.8", default-features = false, features = ["load-dynamic"] }
