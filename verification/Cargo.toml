[package]
name = "interactor"
version = "0.1.0"
edition = "2021"
publish = false

[dependencies]
anyhow = "=1.0.104"
dotenvy = "=0.15.7"
ethers = { version = "=2.0.14", default-features = false, features = ["abigen"] }
ethers-solc = { version = "=2.0.14", default-features = false }
inquire = "=0.6.2"
k256 = "=0.13.4"
minify-html = "=0.10.8"
osstrtools = "=0.1.9"
serde = { version = "=1.0.229", features = ["derive"] }
serde_json = "=1.0.154"
tokio = { version = "=1.54.1", features = ["macros", "rt-multi-thread"] }
toml = "=0.8.23"
