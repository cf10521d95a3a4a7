//! Detection of duplicate animation states in game-icon (DMI) resources.
//!
//! Two states of one icon are duplicates of each other when they agree on both
//! their name and their movement flag. The first occurrence is kept; every later
//! one is a finding.

pub mod duplicates;
pub mod findings;
pub mod icon;
pub mod message;
pub mod scan;
pub mod state;
