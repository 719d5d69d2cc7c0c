[package]
name = "mlua_userdata_macro"
version = "0.1.0"
edition = "2021"
publish = false

[dependencies]
proc-macro2 = "1"
quote = "1"
syn = { version = "2", features = ["full"] }

[dev-dependencies]
mlua = { version = "0.9", features = ["lua54", "vendored"] }
