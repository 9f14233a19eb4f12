[package]
name = "transcribe_rs"
version = "0.1.0"
edition = "2021"
publish = false

[dependencies]
anyhow = "=1.0.104"
hound = "=3.5.1"
log = "=0.4.34"
ndarray = "=0.17.2"
ort = { version = "=2.0.0-rc.13", default-features = false, features = ["std", "ndarray", "load-dynamic"] }
rubato = "=0.15.0"
symphonia = "=0.5.5"
