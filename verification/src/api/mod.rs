//! Helpers for desktop environments and for the wallhaven.cc web API.
pub mod distro;
pub mod os;
pub mod wallheaven;
