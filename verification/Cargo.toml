[package]
name = "ice_vox_mem"
version = "0.1.0"
edition = "2021"
publish = false

[dependencies]
glam = "=0.13.1"
tri-mesh = "=0.5.0"
log = "=0.4.34"
pretty_env_logger = "=0.4.0"
vulkano = "=0.22.0"
vulkano-win = "0.22"
winit = "=0.24.0"
egui = "=0.11.0"
egui_vulkano = "=0.1.0"
egui_winit_platform = "=0.6.0"
