[package]
name = "stream_group"
version = "0.1.0"
edition = "2021"
publish = false

[dependencies]
chrono = "=0.4.45"
clap-v3 = "=3.0.0-beta.1"
colored = "=2.2.0"
hostname = "=0.3.1"
is_prime = "=2.0.9"
rand = "=0.8.8"
redis = "=0.26.1"
