[package]
name = "diesel_pg_hstore"
version = "0.1.0"
edition = "2021"
publish = false

[dependencies]
byteorder = "1"
diesel = { version = "2", default-features = false, features = ["postgres_backend"] }
fallible-iterator = "0.2"
serde = "1"
serde_derive = "1"
