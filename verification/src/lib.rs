//! Commit-graph layout: lanes, colours and connections for a commit history
//! drawn as a multi-lane diagram, together with the value types and decision
//! rules of a small Git client.

pub mod error;
pub mod text;
pub mod text_order;
pub mod path_parts;

pub mod lane_model;
pub mod lanes;
pub mod graph_model;
pub mod graph_laws;
pub mod history;
pub mod commit_id;
pub mod details;

pub mod diff;
pub mod diff_collect;
pub mod index;
pub mod repository;
pub mod merge;
pub mod branch_order;
pub mod remote;
pub mod credentials;
pub mod stash;
pub mod config;
pub mod watcher;
