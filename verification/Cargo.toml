[package]
name = "onelastleaf_plugin_sdk"
version = "0.1.0"
edition = "2021"
publish = false

[dependencies]
http = "1"
libc = "0.2"
prost-types = "0.14"
sha2 = "*"
tokio = { version = "1", features = ["io-util", "macros", "rt", "rt-multi-thread", "sync", "time"] }
tokio-stream = "0.1"
tonic = { version = "0.14", default-features = false, features = ["channel", "codegen"] }
uuid = "1"
