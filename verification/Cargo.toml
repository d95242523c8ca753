[package]
name = "gossip_chat"
version = "0.1.0"
edition = "2021"
publish = false

[dependencies]
futures = "0.3"
libp2p = { version = "0.52", features = ["gossipsub", "macros", "mdns", "noise", "tcp", "tokio", "yamux"] }
tokio = { version = "1", features = ["io-std", "io-util", "macros", "rt-multi-thread"] }
