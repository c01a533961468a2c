[package]
name = "chess_bot"
version = "0.1.0"
edition = "2021"
publish = false

[dependencies]
rand = "*"
tokio = { version = "*", features = ["rt-multi-thread", "macros", "time"] }
thirtyfour = "*"
reqwest = { version = "*", default-features = false }
ctrlc = "*"
