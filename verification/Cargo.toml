[package]
name = "proving_server"
version = "0.1.0"
edition = "2021"
publish = false

[dependencies]
rusqlite = { version = "=0.40.2", features = ["bundled"] }
ark-circom = "=0.6.0"
ark-groth16 = "=0.6.0"
ark-bn254 = "=0.6.0"
ark-std = "=0.6.0"
