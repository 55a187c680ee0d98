[package]
name = "qwen35_batch"
version = "0.1.0"
edition = "2021"
publish = false

[dependencies]
anyhow = "=1.0.104"
candle-core = "=0.11.1"
candle-nn = "=0.11.1"
half = "=2.7.1"
log = "=0.4.35"
memmap2 = "=0.9.12"
objc2 = "*"
rand = "=0.10.3"
rayon = "=1.12.0"
