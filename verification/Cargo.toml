[package]
name = "cookiebot"
version = "0.1.0"
edition = "2021"
publish = false

[dependencies]
anyhow = "=1.0.104"
chrono = { version = "=0.4.45", features = ["serde"] }
reqwest = { version = "=0.12.28", default-features = false, features = ["json", "rustls-tls"] }
ron = "=0.12.2"
secrecy = { version = "=0.10.3", features = ["serde"] }
serde = { version = "=1.0.229", features = ["derive"] }
tokio = { version = "=1.53.2", features = ["macros", "rt-multi-thread", "time"] }
twitch-irc = "=6.1.3"
zeroize = { version = "=1.9.1", features = ["zeroize_derive"] }
