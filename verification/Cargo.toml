[package]
name = "desk"
version = "0.1.0"
edition = "2021"
publish = false

[dependencies]
futures-core = "=0.3.34"
futures-util = "=0.3.34"
serde = { version = "=1.0.229", features = ["derive"] }
serde_json = "=1.0.154"
tokio = { version = "=1.54.1", features = ["macros", "rt-multi-thread", "sync", "time"] }
topcoat = { version = "=0.6.2", default-features = false, features = ["cookie", "discover", "router", "serve", "sse", "view"] }
ureq = { version = "=3.5.1", features = ["json"] }
