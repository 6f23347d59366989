//! Ambient, per-request context for request-processing pipelines: a keyed
//! value store, the scoped activation of a store on an execution unit, the
//! propagation of a captured store across the steps of a suspending
//! computation, and the transaction scope built on top of them.

pub mod context;
pub mod context_middleware;
pub mod database;
pub mod db_impl;
pub mod transaction;
pub mod with_context;
