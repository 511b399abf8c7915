//! What holds of the library as its callers see it: laws over calls, over their arguments
//! and their results alone.
pub mod asks;
pub mod checkpoints;
pub mod commandlines;
pub mod controls;
pub mod events;
pub mod fences;
pub mod flow;
pub mod hints;
pub mod kept;
pub mod lifetimes;
pub mod limits;
pub mod named;
pub mod picks;
pub mod refs;
pub mod repos;
pub mod rewrites;
pub mod runs;
pub mod sequences;
pub mod settings;
pub mod steps;
pub mod switches;
pub mod words;
