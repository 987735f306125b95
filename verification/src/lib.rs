//! Core logic of Syn-Syu: a rate-limited, batching AUR metadata client
//! and the engine that reconciles installed package versions against the
//! official repositories and the AUR.
//!
//! Network transport, subprocess invocation (pacman, vercmp) and file
//! output live outside this crate; the modules here hold the decision
//! logic with machine-checked contracts.

pub mod aur;
pub mod error;
pub mod future;
pub mod gate;
pub mod logger;
pub mod manifest;
pub mod package_info;
pub mod pacman;
pub mod version_map;
