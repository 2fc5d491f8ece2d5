[package]
name = "hax_export"
version = "0.1.0"
edition = "2021"
publish = false

[dependencies]
itertools = "0.11"
serde = { version = "1", features = ["derive"] }
serde_json = "1"
which = "4"
colored = "2"
inquire = "0.6"
const_format = "0.2"
syn = { version = "2", features = ["full", "visit-mut", "extra-traits"] }
quote = "1"
proc-macro2 = "1"
