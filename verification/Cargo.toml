[package]
name = "dungeon_ui"
version = "0.1.0"
edition = "2021"
publish = false

[dependencies]
smallvec = "1"
godot = "0.1"
owning_ref = "0.4"
paste = "1"
