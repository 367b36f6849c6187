//! Asterism engine core: the verified decision logic of a visual-novel runtime.
pub mod app;
pub mod background_layer;
pub mod command_bridge;
pub mod dialogue_controller;
pub mod error;
pub mod frame_capture;
pub mod game_context;
pub mod game_loader;
pub mod game_manifest;
pub mod gpu_context;
pub mod input_manager;
pub mod layer_manager;
pub mod renderer_impl;
pub mod sprite_layer;
pub mod strings;
pub mod text_renderer;
pub mod texture;
pub mod typewriter;
pub mod ui_command;
