//! Impact-aware test runner core: selection, scheduling, sharding and policy logic.
pub mod text;
pub mod order;
pub mod schemas;
pub mod import_graph;
pub mod paths;
pub mod planner;
pub mod scheduler;
pub mod security;
pub mod compatibility;
pub mod watch;
pub mod diagnostics;
pub mod event_stream;
pub mod config;
pub mod telemetry;
pub mod python_worker;
pub mod python_launcher;
pub mod worker_pool;
pub mod coverage;
pub mod cli;
pub mod orchestrator;
pub mod sharder;
pub mod cache;
pub mod flaky;
pub mod commands;
pub mod explain;
pub mod execution;

use vstd::prelude::*;

verus! {

/// A greeting that shows the library is linked.
pub fn hello() -> (r: &'static str)
    ensures
        r@ == "veri-core: hello"@,
{
    "veri-core: hello"
}

} // verus!
