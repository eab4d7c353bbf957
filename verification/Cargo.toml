[package]
name = "router"
version = "0.1.0"
edition = "2021"
publish = false

[dependencies]
heck = "0.5"
mime_guess = "2"
serde = { version = "1", features = ["derive"] }
serde_json = "1"
anyhow = "1"
bytes = "1"
futures = "0.3"
futures-signals = "0.3"
http-body-util = "0.1"
hyper = { version = "1", features = ["server", "http1"] }
hyper-util = { version = "0.1", features = ["tokio"] }
log = "0.4"
pretty_env_logger = "0.5"
proc-macro2 = "1"
quote = "1"
syn = { version = "2", features = ["full"] }
reqwest = { version = "0.12", default-features = false, features = ["json"] }
tokio = { version = "1", features = ["rt", "rt-multi-thread", "net", "macros"] }
walkdir = "2"
wasm-bindgen-futures = "0.4"
web-sys = { version = "0.3", features = ["Window"] }
