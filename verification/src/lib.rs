//! Decision logic of a coding agent's tools.

pub mod agents;
pub mod apply_patch;
pub mod bytes;
pub mod catalog;
pub mod check;
pub mod codec;
pub mod command;
pub mod command_capture;
pub mod delegate;
pub mod diagnostics;
pub mod diff;
pub mod diff_edit;
pub mod image;
pub mod json;
pub mod laws;
pub mod listing;
pub mod manifest;
pub mod manifest_text;
pub mod patch;
pub mod paths;
pub mod plan;
pub mod policy;
pub mod processes;
pub mod profile;
pub mod prompt_context;
pub mod restore_paths;
pub mod restored_files;
pub mod schemas;
pub mod snapshot;
pub mod snapshot_manager;
pub mod snapshot_store;
pub mod spawn_agent;
pub mod task_file_state;
pub mod tasks;
pub mod text;
pub mod tool;
pub mod utf8;
pub mod workspace;
