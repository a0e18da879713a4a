[package]
name = "gawkurl"
version = "0.1.0"
edition = "2021"
publish = false

[dependencies]
anyhow = "*"
base64 = "=0.23.1"
blake2 = "=0.11.0"
bytes = "1"
form_urlencoded = "=1.2.2"
http = "=1.5.0"
http-body-util = "0.1"
httpdate = "=1.0.3"
hyper = { version = "1", features = ["server", "http1", "http2"] }
hyper-util = { version = "0.1", features = ["server", "server-auto", "http1", "http2", "tokio"] }
nom-rfc8288 = "=0.4.0"
rand = "=0.10.3"
reqwest = "=0.13.5"
tokio = { version = "1", features = ["macros", "net", "rt-multi-thread", "sync", "time"] }
trillium = "=1.1.0"
trillium-client = "0.8"
trillium-http = "=1.2.2"
trillium-router = "*"
