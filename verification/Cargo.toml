[package]
name = "service_policy_kit"
version = "0.1.0"
edition = "2021"
publish = false

[dependencies]
fancy-regex = "*"
serde_json = "*"
subprocess = "*"
histogram = "0.6"
reqwest = { version = "*", features = ["blocking"] }
rusoto_core = "*"
chrono = "*"
native-tls = "*"
x509-parser = "*"
console = "*"
difference = "*"
serde = { version = "*", features = ["derive"] }
serde_derive = "*"
serde_yaml = "*"
junit-report = "*"
openapi = "*"
