[package]
name = "employee_rest"
version = "0.1.0"
edition = "2021"
publish = false

[dependencies]
serde = { version = "1", features = ["derive"] }
serde_json = "1"
rocket = { version = "0.5", features = ["json"] }
diesel = { version = "2", features = ["postgres"] }
dotenv = "0.15"
