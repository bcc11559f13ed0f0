//! Verified core of a terminal pull-request review tool.
//!
//! The crate models a loaded pull-request diff, builds a collapsible file
//! tree from the changed paths, flattens hunks into an addressable sequence
//! of rows, and drives the navigation, selection, comment and review state
//! machine over those sequences.  Everything here is verified; the thin
//! I/O shell around it lives outside the library.

pub mod buildlog;
pub mod commands;
pub mod config;
pub mod console;
pub mod diff;
pub mod issues;
pub mod jobs;
pub mod nav;
pub mod pr;
pub mod repo;
pub mod rows;
pub mod text;
pub mod tree;
pub mod viewer;
