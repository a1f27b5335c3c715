[package]
name = "tbs_template"
version = "0.1.0"
edition = "2021"

[dependencies]
const-oid = "=0.9.6"
der = "=0.7.10"
ml-dsa = "=0.0.4"
rand = "=0.8.8"
sha2 = "=0.10.9"
signature = "=2.2.0"
spki = "=0.7.3"
x509-cert = { version = "=0.2.5", features = ["builder"] }
