[package]
name = "profile_connector"
version = "0.1.0"
edition = "2021"
publish = false

[dependencies]
base64 = "0.13"
crossbeam-channel = "0.5"
data-encoding = "2"
directories = "5"
fern = "0.6"
log = "0.4"
nng = "1.0"
rand = "0.8"
ring = "0.16"
rust-ini = "0.18"
serde = { version = "1", features = ["derive"] }
serde_json = "1"
threadfin = "*"
ulid = "1"
url = "2"
