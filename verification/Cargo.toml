[package]
name = "spec_assets"
version = "0.1.0"
edition = "2021"
publish = false

[dependencies]
bevy = { version = "0.9", default-features = false, features = ["bevy_asset"] }
bevy_common_assets = { version = "0.4", features = ["ron"] }
convert_case = "0.6"
proc-macro2 = "1"
quote = "1"
serde = "1"
syn = { version = "1", features = ["full"] }
