[package]
name = "bucky"
version = "0.1.0"
edition = "2021"
publish = false

[dependencies]
chrono = "0.4"
order-stat = "0.1"
pathfinder_canvas = { version = "0.5", default-features = false }
pathfinder_geometry = "0.5"
