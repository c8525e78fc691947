[package]
name = "graphql_gateway"
version = "0.1.0"
edition = "2021"
publish = false

[dependencies]
actix-cors = "=0.6.5"
actix-http = "=3.19.0"
actix-web = "=4.18.1"
clap = "=3.2.25"
mobc = "=0.7.3"
num_cpus = "=1.17.0"
serde = { version = "=1.0.229", features = ["derive"] }
serde_json = "=1.0.154"
warpgrapher = { version = "=0.11.2", features = ["cypher"] }
