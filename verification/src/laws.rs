//! Properties that relate several calls, proved from the contracts of the calls.

pub mod basics;
pub mod commands;
pub mod derive;
pub mod history;
pub mod inmemory;
pub mod messages;
pub mod policies;
pub mod projections;
pub mod snapshots;
