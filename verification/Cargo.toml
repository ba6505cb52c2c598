[package]
name = "proto_registry"
version = "0.1.0"
edition = "2021"
publish = false

[dependencies]
linked-hash-map = "=0.5.6"
protobuf = "=3.7.2"
protobuf-support = "=3.7.2"
