//! Gallium: a tiling window manager's core, as a verified library.
pub mod config;
pub mod cycle;
pub mod deck;
pub mod gallium;
pub mod key;
pub mod layout;
pub mod window_manager;
pub mod xserver;
