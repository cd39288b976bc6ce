[package]
name = "whipseey_save_manager"
version = "0.1.0"
edition = "2021"
publish = false

[dependencies]
rust-ini = "*"
