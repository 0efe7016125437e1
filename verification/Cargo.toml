[package]
name = "eips_build"
version = "0.1.0"
edition = "2021"
publish = false

[dependencies]
git2 = { version = "*", default-features = false }
sha3 = "*"
fslock = "*"
directories = "*"
url = "*"
duct = "*"
semver = "*"

[dev-dependencies]
tempfile = "*"
