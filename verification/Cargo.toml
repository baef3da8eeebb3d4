[package]
name = "opentracker_exporter"
version = "0.1.0"
edition = "2021"
publish = false

[dependencies]
clap = "2"
httpdate = "1"
xml-rs = "0.8"
