[package]
name = "nu_plugin_xlsx"
version = "0.1.0"
edition = "2021"
publish = false
rust-version = "1.95"

[dependencies]
nu-plugin = "=0.115.1"
nu-protocol = "=0.115.1"
rust_xlsxwriter = { version = "=0.102.0", features = ["chrono"] }
chrono = "=0.4.45"

[dev-dependencies]
calamine = "=0.38.0"
zip = "=9.2.2"
