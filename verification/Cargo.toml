[package]
name = "fp2_elliptic"
version = "0.1.0"
edition = "2021"
publish = false
