[package]
name = "expurgator"
version = "0.1.4"
edition = "2021"
publish = false

[dependencies]
anyhow = "1"
bzip2 = "*"
clap = { version = "4", features = ["derive"] }
csv = "1"
flate2 = "1"
indicatif = "*"
infer = "*"
inquire = "*"
tar = "0.4"
xz2 = "0.1"
zip = "*"
