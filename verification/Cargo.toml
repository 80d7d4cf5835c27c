[package]
name = "cloudflare_access_webhook_redirect"
version = "0.1.0"
edition = "2021"
publish = false

[dependencies]
regex = "=1.13.1"
url = "=2.5.8"
http = "=1.5.0"
actix-web = { version = "=4.15.0", default-features = false, features = ["macros"] }
reqwest = { version = "=0.12.28", default-features = false }
reqwest-middleware = "=0.4.2"
tokio = { version = "=1.53.2", default-features = false, features = ["macros", "rt-multi-thread"] }
tokio-stream = "0.1"
secrecy = "=0.10.3"
