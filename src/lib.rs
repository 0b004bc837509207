//! Host core of a status-line generator whose display elements come from plugins.
//!
//! The verified library holds the decisions of the host: which plugin libraries are
//! accepted, how configuration fields are resolved, how the main loop reacts to each
//! message, and how the output line is composed.
use vstd::prelude::*;

pub mod plugin;
pub mod plugin_database;
pub mod config;
pub mod resolver;
pub mod communication;
pub mod main_loop;
pub mod signalhandler;

verus! {

} // verus!
