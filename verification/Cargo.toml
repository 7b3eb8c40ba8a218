[package]
name = "guild_music"
version = "0.1.0"
edition = "2021"
publish = false

[dependencies]
uuid = { version = "1", features = ["v4"] }
rand = "0.8"
url = "2"
serenity = { version = "0.11", features = ["standard_framework", "voice", "cache"] }
songbird = "0.3"
tokio = { version = "1", features = ["macros", "rt-multi-thread"] }
parking_lot = "0.12"
log = "0.4"
log4rs = "1"
lazy_static = "1"
