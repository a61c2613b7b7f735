[package]
name = "scraping_engine"
version = "0.1.0"
edition = "2021"
publish = false

[dependencies]
handlebars = "*"
sanitize-filename = "*"
glob = "*"
serde = { version = "*", features = ["derive"] }
serde_json = "*"
jsonpath_lib = "*"
encoding_rs = "*"
encoding = "*"
chrono = "*"
mime = "*"
mime_guess = "*"
reqwest = { version = "*", default-features = false }
tokio = { version = "*", features = ["rt-multi-thread", "sync", "fs", "process", "io-util", "time"] }
chardetng = "*"
infer = "*"

[dev-dependencies]
tempfile = "*"
