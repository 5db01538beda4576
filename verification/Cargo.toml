[package]
name = "omni_pane"
version = "0.1.0"
edition = "2021"
publish = false

[dependencies]
chrono = "=0.4.45"
opencv = { version = "=0.93.5", default-features = false, features = ["highgui", "imgproc", "videoio"] }
