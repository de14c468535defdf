[package]
name = "astra"
version = "0.1.0"
edition = "2021"
publish = false

[dependencies]
png = "*"
wuff = "*"
peniko = "*"
kurbo = "*"
serde = { version = "1", features = ["derive"] }
thiserror = "*"
parley = "*"
log = "*"
uuid = { version = "1", features = ["v4", "serde"] }
