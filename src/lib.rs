//! A dynamic-DNS reconciliation library: it keeps a set of hostnames pointed at
//! the current public IPv4 address of the machine that runs it.

pub mod state;
pub mod domain;
pub mod resolve;
pub mod api;
pub mod update;
pub mod reconcile;
