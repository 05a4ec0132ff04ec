[package]
name = "todo_store"
version = "0.1.0"
edition = "2021"
publish = false

[dependencies]
actix-cors = "*"
actix-web = "4"
serde = { version = "1", features = ["derive"] }
serde_json = "1"
