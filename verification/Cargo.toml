[package]
name = "game_of_life_parsers"
version = "0.1.0"
edition = "2021"
publish = false

[dependencies]
regex = "1"
error-chain = { version = "0.12", default-features = false }

[dev-dependencies]
io-test-util = "*"
