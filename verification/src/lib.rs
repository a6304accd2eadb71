pub mod chapter_tree_manager;
pub mod duration;
pub mod factory;
pub mod main_controller;
pub mod media_info;
pub mod playback_pipeline;
pub mod timestamp;
pub mod timestamp_4_humans;
