[package]
name = "metapak"
version = "0.1.0"
edition = "2021"
publish = false

[dependencies]
secrecy = "0.8"
regex = "1"
urlencoding = "2"
reqwest = { version = "0.12", features = ["json"] }
serde = { version = "1", features = ["derive"] }
tokio = { version = "1", features = ["rt-multi-thread", "macros", "time"] }
async-trait = "0.1"
once_cell = "1"
tracing = "0.1"
sysinfo = "0.30"
arboard = { version = "3", default-features = false }
