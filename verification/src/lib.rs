//! Verified core logic of a browser automation toolkit for AI agents.
use vstd::prelude::*;

pub mod actions;
pub mod ax_tree;
pub mod calendar;
pub mod cli;
pub mod drag;
pub mod error;
pub mod frames;
pub mod http_api;
pub mod keys;
pub mod locate;
pub mod mcp;
pub mod mcp_client;
pub mod navigation;
pub mod paths;
pub mod media;
pub mod policy;
pub mod scripts;
pub mod snapshot;
pub mod state;
pub mod tasks;
pub mod text;
pub mod tools;
pub mod types;

verus! {

} // verus!
