[package]
name = "maw"
version = "0.1.0"
edition = "2021"
publish = false

[dependencies]
matchit = "=0.9.2"
base64 = "=0.23.1"
constant_time_eq = "=0.6.1"
rand = "=0.10.3"
httpdate = "=1.0.3"
mime_guess = "=2.0.5"
http = "=1.5.0"
hyper = { version = "=1.12.0", features = ["http1", "server"] }
hyper-util = { version = "=0.1.21", features = ["tokio", "http1", "server", "server-graceful"] }
http-body-util = "=0.1.5"
tokio = { version = "=1.54.1", features = ["rt-multi-thread", "net", "signal", "macros", "time"] }
bytes = "=1.12.1"
serde = { version = "=1.0.229", features = ["derive"] }
serde_json = "=1.0.154"
serde_urlencoded = "=0.7.1"
postcard = { version = "=1.1.3", features = ["use-std"] }
thiserror = "=2.0.21"
tracing = "=0.1.44"
cookie = { version = "=0.18.2", features = ["signed", "private"] }
rust-embed = "=8.13.0"
quick-xml = { version = "=0.42.0", features = ["serialize"] }
