[package]
name = "bevy_simple_scroll_view"
version = "0.1.0"
edition = "2021"
publish = false

[dependencies]
bevy = { version = "0.16", default-features = false, features = ["std", "bevy_ui", "bevy_picking", "bevy_ui_picking_backend"] }
