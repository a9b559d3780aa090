//! What the library does, said of its results: laws over the spec functions that the contracts
//! speak of, in plain terms of what goes in and what comes out.

pub mod arguments;
pub mod captures;
pub mod changes;
pub mod checks;
pub mod commands;
pub mod diffs;
pub mod envelopes;
pub mod manifests;
pub mod patches;
pub mod pictures;
pub mod places;
pub mod plans;
pub mod profiles;
pub mod searches;
pub mod snapshots;
pub mod subagents;
pub mod texts;
pub mod values;
