//! Network interface configuration core: the command bus that serialises
//! access to the configuration daemon, the rule engine that orders and names
//! network devices, and the reconciler that converges connections to the
//! names the rules ask for.
use vstd::prelude::*;

pub mod address;
pub mod bus;
pub mod config;
pub mod json;
pub mod model;
pub mod reconcile;
pub mod rules;
pub mod service;
pub mod ui;
pub mod web;

verus! {

} // verus!
