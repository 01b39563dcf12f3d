[package]
name = "shape_validation"
version = "0.1.0"
edition = "2021"
publish = false

[dependencies]
colored = "2"
iri_s = "=0.0.13"
log = "0.4"
oxrdf = "=0.2.4"
serde_json = "=1.0.154"
thiserror = "=1.0.69"
