[package]
name = "my_algo_pay"
version = "0.1.0"
edition = "2021"
publish = false

[dependencies]
algonaut = "*"
algonaut_core = "*"
data-encoding = "*"
serde_json = "*"
