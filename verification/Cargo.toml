[package]
name = "svg_round"
version = "0.1.0"
edition = "2021"
publish = false

[dependencies]
svgdom = "*"
