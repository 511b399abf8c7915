//! Decision logic of a background daemon that follows git activity.
use vstd::prelude::*;

pub mod bash_calls;
pub mod checkpoint;
pub mod commands;
pub mod config;
pub mod control;
pub mod coordinator;
pub mod drain;
pub mod drain_schedule;
pub mod effect_run;
pub mod effects;
pub mod event_effects;
pub mod fence;
pub mod frames;
pub mod ingest;
pub mod ingress;
pub mod keyed;
pub mod laws;
pub mod lifecycle;
pub mod paths;
pub mod pending;
pub mod questions;
pub mod quota;
pub mod repo_family_store;
pub mod repo_state;
pub mod restart_budget;
pub mod rewrite;
pub mod sequencer;
pub mod settle;
pub mod side_effects;
pub mod sources;
pub mod spelling;
pub mod text;
pub mod trace;
pub mod untraced_fixup_ignore;
pub mod waits;
pub mod working_logs;

verus! {

} // verus!
