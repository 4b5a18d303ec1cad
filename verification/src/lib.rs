//! Verified core of a media upload server and its storage watcher.
use vstd::prelude::*;

pub mod auth;
pub mod changes;
pub mod errors;
pub mod models;
pub mod notify_table;
pub mod permissions;
pub mod rate_limit;
pub mod rename_control;
pub mod routes;
pub mod skip;
pub mod storage;
pub mod sync;
pub mod text;
pub mod upload;
pub mod watcher;

verus! {

} // verus!
