[package]
name = "liszp"
version = "0.1.0"
edition = "2021"
publish = false

[dependencies]
rug = { version = "=1.19.2", default-features = false, features = ["integer"] }
# rug's own system crate, named only for its feature: link the GMP that is
# installed instead of building the one it bundles.
gmp-mpfr-sys = { version = "=1.5.3", default-features = false, features = ["use-system-libs"] }
