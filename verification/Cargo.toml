[package]
name = "freqfs"
version = "0.1.0"
edition = "2021"
publish = false

[dependencies]
bytes = "1"
destream = "*"
ds-ext = "*"
fs2 = "0.4"
futures = "0.3"
log = "0.4"
safecast = "*"
tbon = { version = "*", features = ["tokio-io"] }
tokio = { version = "1", features = ["fs", "io-util", "macros", "rt", "sync", "time"] }
tokio-util = { version = "0.7", features = ["io"] }
trait-variant = "0.1"
