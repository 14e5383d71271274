[package]
name = "horaedb_client"
version = "0.1.0"
edition = "2021"
publish = false

[dependencies]
anyhow = "1"
async-trait = "0.1"
base64 = "0.22"
horaedbproto = "2"
tonic = "0.8"
