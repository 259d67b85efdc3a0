[package]
name = "scadline"
version = "0.1.0"
edition = "2021"
publish = false

[dependencies]
bytemuck = "1"
eframe = { version = "0.33", default-features = false, features = ["default_fonts", "glow", "wayland", "x11"] }
git2 = { version = "*", default-features = false, features = ["vendored-libgit2"] }
rfd = "*"
serde = { version = "1", features = ["derive"] }
stl_io = "*"
tempfile = "3"
toml = "*"
