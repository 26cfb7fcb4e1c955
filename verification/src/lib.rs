//! Core logic of a single-host appliance control plane: a package manager
//! that compiles declarative packages through a two-stage template engine,
//! provisions their storage on ZFS, installs them as supervised services,
//! and a crash-safe migration engine shared by the daemons.

pub mod agent;
pub mod errors;
pub mod globals;
pub mod input;
pub mod install;
pub mod launcher;
pub mod manager;
pub mod migrate;
pub mod package;
pub mod prompt;
pub mod registry;
pub mod service;
pub mod template;
pub mod text;
pub mod unit;
pub mod zfs;
