[package]
name = "tournament_management"
version = "0.1.0"
edition = "2021"
publish = false

[dependencies]
actix-rt = "=1.1.1"
actix-web = "=3.3.3"
bson = "=1.2.4"
chrono = "=0.4.19"
fern = "=0.6.2"
fll-scoring = "=0.1.0"
futures = "=0.3.34"
handlebars = { version = "=3.5.5", features = ["dir_source"] }
log = "=0.4.34"
mongodb = "=1.2.5"
serde = { version = "=1.0.229", features = ["derive"] }
