[package]
name = "rusticle"
version = "0.1.0"
edition = "2021"
publish = false

[dependencies]
gif = "0.13"
rayon = "1"
imagequant = { version = "4", default-features = false }
image = { version = "0.25", default-features = false }
butteraugli = "*"
serde = { version = "1", features = ["derive"] }
thiserror = "2"
