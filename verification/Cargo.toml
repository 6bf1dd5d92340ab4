[package]
name = "departments"
version = "0.1.0"
edition = "2021"
publish = false

[dependencies]
diesel = { version = "1.4", features = ["mysql"] }
log = "0.4"
rouille = "3"
serde = { version = "1", features = ["derive"] }
serde_json = "1"
url = "2"
