[package]
name = "rfid_sfl"
version = "0.1.0"
edition = "2021"
publish = false

[dependencies]
cf_rh320u_93_reader = "*"
log = "0.4"
native-dialog = "0.6"
rocket = { version = "0.5", features = ["json"] }
rocket-client-addr = "0.5"
simplelog = "0.12"
