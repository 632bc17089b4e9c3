[package]
name = "x509-info"
version = "0.1.0"
edition = "2021"
publish = false

[dependencies]
x509-parser = "0.18"
x509-cert = "0.3"
pkcs1 = "0.7"
sha2 = "0.10"
pem-rfc7468 = { version = "0.7", features = ["alloc"] }
oid-registry = { version = "0.8", features = ["crypto", "x509", "x500"] }
serde = { version = "1", features = ["derive"] }
serde_json = "1"
clap = { version = "4", features = ["derive"] }
ciborium = "0.2"
toml = "0.8"
serde_yaml_ng = "0.10"
rmp-serde = "1"
uuid = "1"
base64ct = { version = "1", features = ["alloc"] }
schemars = "1"
thiserror = "2"
