[package]
name = "free_voip"
version = "0.1.0"
edition = "2021"
publish = false

[dependencies]
iroh = "*"
tokio = { version = "*", features = ["full"] }

[dev-dependencies]
postcard = { version = "*", features = ["alloc"] }
