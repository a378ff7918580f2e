[package]
name = "ti_toolbox_core"
version = "0.1.0"
edition = "2021"
publish = false

[dependencies]
serde = { version = "=1.0.229", features = ["derive"] }
serde_json = "=1.0.154"
xmltree = { version = "=0.12.0", features = ["attribute-order"] }
zip = "=9.2.2"
