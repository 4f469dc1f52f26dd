[package]
name = "dft_basic"
version = "0.1.0"
edition = "2021"
publish = false

[dependencies]
candid = "=0.8.4"
num-bigint = "=0.4.8"
ic-cdk = "=0.6.10"
ic-cdk-macros = "=0.6.10"
lazy_static = "=1.5.1"
