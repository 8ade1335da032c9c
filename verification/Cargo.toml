[package]
name = "pybox"
version = "0.1.0"
edition = "2021"
publish = false

[dependencies]
dashmap = "=6.2.1"
libc = "=0.2.185"
pyo3 = "=0.29.3"
rustpython-pylib = { version = "=0.5.0", features = ["freeze-stdlib"] }
rustpython-vm = "=0.5.0"
wasmtime = { version = "=48.0.5", default-features = false, features = ["runtime", "cranelift", "std"] }
wasmtime-wasi = "=48.0.5"
