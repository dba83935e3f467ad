//! Operating-system specific wallpaper commands.
pub mod macos;
