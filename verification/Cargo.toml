[package]
name = "mxd"
version = "0.1.0"
edition = "2021"
publish = false

[dependencies]
bytes = "=1.12.1"
tokio-util = { version = "=0.7.19", features = ["codec", "io", "rt"] }
bincode = "=2.0.1"
wireframe = { version = "=0.3.0", default-features = false, features = ["serializer-bincode"] }
tokio = { version = "=1.54.1", features = ["net", "rt", "macros", "io-util", "time", "sync"] }
futures-util = { version = "=0.3.34", features = ["sink"] }
url = "2"
