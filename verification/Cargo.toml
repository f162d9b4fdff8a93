[package]
name = "veloren_logic"
version = "0.1.0"
edition = "2021"
publish = false

[dependencies]
hashbrown = "=0.15.5"
chrono = "=0.4.45"
dot_vox = "=5.2.0"
vek = "=0.17.2"
serde = { version = "=1.0.229", features = ["derive"] }
strum = { version = "=0.27.2", features = ["derive"] }
tokio = { version = "=1.54.1", features = ["sync", "rt"] }

[dev-dependencies]
chumsky = "=0.9.3"
