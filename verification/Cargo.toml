[package]
name = "wasi-runner"
version = "0.1.0"
edition = "2021"
publish = false

[dependencies]
sha1 = "0.10"
hex = "0.4"
anyhow = "1"
clap = { version = "4", features = ["derive"] }
serde = { version = "1", features = ["derive"] }
serde_json = "1"
toml = "0.8"
thiserror = "2"
tempfile = "3"
glob = "0.3"
wasmtime = { version = "25", default-features = false, features = ["std", "runtime", "cranelift", "component-model"] }
wasmtime-wasi = "25"
wasmtime-wasi-http = "25"
wasi-http-client = { version = "0.2", features = ["json"] }
