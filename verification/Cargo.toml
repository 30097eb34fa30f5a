[package]
name = "polycycle"
version = "0.1.0"
edition = "2021"
publish = false

[dependencies]
piston_window = "*"
piston = "*"
piston2d-sprite = "*"
piston-ai_behavior = "*"
find_folder = "*"
interpolation = "*"
cgmath = "*"
gfx_device_gl = "*"
