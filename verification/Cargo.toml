[package]
name = "blockplot"
version = "0.1.0"
edition = "2021"
publish = false

[dependencies]
anyhow = "=1.0.104"
chrono = "=0.4.45"
config = "=0.10.1"
dashmap = "=4.0.2"
diesel = { version = "=1.4.8", features = ["postgres", "chrono", "r2d2"] }
dotenv = "=0.15.0"
jsonwebtoken = "=7.2.0"
rand = "=0.7.3"
reqwest = { version = "=0.11.27", features = ["blocking", "json"] }
rocket = { version = "0.5", features = ["json"] }
rocket_cors = "0.6"
rusty-rescuetime = "=0.1.0"
serde = { version = "=1.0.229", features = ["derive"] }
serde-aux = "=4.7.0"
serde_json = "=1.0.154"
uuid = { version = "=0.8.2", features = ["v4"] }
