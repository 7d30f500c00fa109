//! What the operations are for: laws over what goes in and what comes out.
pub mod chunking;
pub mod clusters;
pub mod dashboard;
pub mod delivery;
pub mod graph;
pub mod guard;
pub mod hub;
pub mod import;
pub mod listings;
pub mod memories;
pub mod migrate;
pub mod numbers;
pub mod pages;
pub mod ranking;
pub mod recall;
pub mod rollups;
pub mod schedule;
pub mod set_reminder;
pub mod text;
pub mod time;
