[package]
name = "parse_mediawiki_dump"
version = "0.1.0"
edition = "2021"
publish = false

[dependencies]
xml-rs = "*"
