[package]
name = "frame_annotator"
version = "0.1.0"
edition = "2021"
publish = false

[dependencies]
opencv = { version = "0.88", default-features = false, features = ["highgui", "imgproc", "objdetect", "videoio"] }
