[package]
name = "node_graph"
version = "0.1.0"
edition = "2021"
publish = false

[dependencies]
slotmap = "1.0"
iced_native = "0.5"
iced_wgpu = "0.5"
iced_winit = "0.4"
