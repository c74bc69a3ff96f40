[package]
name = "intra"
version = "0.1.0"
edition = "2021"
publish = false

[dependencies]
clap = { version = "=4.6.7", features = ["derive"] }
hashbrown = "=0.15.5"
regex = "=1.13.1"
rust_decimal = { version = "=1.43.0", default-features = false, features = ["std"] }
rustyline = "=19.0.0"
thiserror = "=1.0.69"
