[package]
name = "astro_orbit"
version = "0.2.0"
edition = "2021"
publish = false

[dependencies]
soroban-sdk = "=27.0.6"
