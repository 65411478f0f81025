//! A dotfile deployment engine driven by build tags.

pub mod config;
pub mod deploy;
pub mod discover;
pub mod hash;
pub mod keyed;
pub mod paths;
pub mod remove;
pub mod tags;
