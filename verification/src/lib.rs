//! The decision logic behind a dungeon-crawler's Godot user interface.
//!
//! The engine-facing side (nodes, signals, drawing) lives in the application
//! crate; this library holds everything that decides what the interface shows
//! and which inputs it sends, each function with a contract.
pub mod di_context;
pub mod directions;
pub mod encounters;
pub mod floor_tiles;
pub mod game_view;
pub mod input_map;
pub mod interaction;
pub mod scene_tree;
pub mod template_spawner;
pub mod text;
pub mod transfer;
pub mod ui_input;
