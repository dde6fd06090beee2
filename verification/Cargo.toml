[package]
name = "curvesvg"
version = "0.1.0"
edition = "2021"

[dependencies]
base64 = "0.13"
roxmltree = "*"
svg = "*"
