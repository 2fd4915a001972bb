[package]
name = "lavalink_futures"
version = "0.1.0"
edition = "2021"
publish = false

[dependencies]
futures = "=0.1.31"
evzht9h3nznqzwl = { version = "=0.0.3", default-features = false, features = ["sync", "async"] }

[dev-dependencies]
serde_json = "1"
