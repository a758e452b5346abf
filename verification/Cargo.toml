[package]
name = "scraper"
version = "0.1.0"
edition = "2021"
publish = false

[dependencies]
url = "=2.5.8"
csv = "*"
serde = { version = "*", features = ["derive"] }
thirtyfour = "=0.31.0"
undetected-chromedriver = "*"
reqwest = { version = "*", features = ["stream"] }
futures-util = "*"
indicatif = "*"
tokio = { version = "*", features = ["macros", "rt-multi-thread"] }
