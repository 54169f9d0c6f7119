//! A verified engine for materializing package trees as symbolic links.
//!
//! Packages live under a stow root; their contents are installed into a
//! target root as relative symbolic links.  The library plans the work
//! (traversal, dot-file rewriting, ignore filtering, collision detection,
//! conflict resolution) and decides what each execution step does; the
//! thin binary around it performs the filesystem calls.

pub mod cli;
pub mod config;
pub mod dotfiles;
pub mod error;
pub mod fs_utils;
pub mod ignore;
pub mod paths;
pub mod patterns;
pub mod stow;
pub mod strutil;
