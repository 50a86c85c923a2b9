[package]
name = "fluss"
version = "0.1.0"
edition = "2021"
publish = false

[dependencies]
arrow = { version = "57", default-features = false }
byteorder = "1"
bytes = "1"
futures = "0.3"
jiff = "0.2"
parking_lot = "0.12"
serde = { version = "1", features = ["derive", "rc"] }
strum = "0.26"
strum_macros = "0.26"
tokio = { version = "1", features = ["time"] }

[dev-dependencies]
bigdecimal = "0.4"
