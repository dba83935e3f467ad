//! Wallpaper changer core: the decisions, texts and selections behind WPC,
//! with the platform and network work left to the application around it.
pub mod api;
pub mod change;
pub mod changer;
pub mod clock;
pub mod command;
pub mod misc;
pub mod schedule;
pub mod settings;
pub mod text;
pub mod web;
