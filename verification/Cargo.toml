[package]
name = "word-tally"
version = "0.27.0"
edition = "2021"
publish = false

[dependencies]
anyhow = "1"
clap = { version = "4", features = ["derive"] }
csv = "1"
hashbrown = "0.15"
icu_segmenter = "2"
memchr = "2"
memmap2 = "0.9"
rayon = "1"
regex = "1"
serde = { version = "1", features = ["derive"] }
serde_json = "1"
simdutf8 = "0.1"
thiserror = "2"
