[package]
name = "egui_map_view"
version = "0.1.0"
edition = "2021"
publish = false

[dependencies]
earcutr = "*"
egui = "*"
eyre = "*"
geojson = "*"
image = { version = "*", default-features = false, features = ["png", "jpeg"] }
log = "*"
once_cell = "*"
poll-promise = "*"
reqwest = { version = "0.12", default-features = false, features = ["blocking", "rustls-tls"] }
serde = { version = "1", features = ["derive"] }
serde_json = "1"
thiserror = "*"
