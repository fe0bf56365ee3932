[package]
name = "graphql_users"
version = "0.1.0"
edition = "2021"
publish = false

[dependencies]
actix-web = "*"
async-graphql = "*"
async-graphql-actix-web = "*"
serde = { version = "*", features = ["derive"] }
