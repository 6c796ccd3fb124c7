[package]
name = "land_registry"
version = "0.1.0"
edition = "2021"
publish = false

[dependencies]
sha2 = "*"
hex = "*"
candid = "*"
ic-cdk = "*"
ic-cdk-macros = "*"
serde = "*"
