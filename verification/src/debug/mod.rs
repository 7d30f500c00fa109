//! The debug pages: what they show, where their links lead, and which requests they answer.
pub mod assets;
pub mod clusters;
pub mod dashboard;
pub mod graph;
pub mod guard;
pub mod html;
pub mod maintenance;
pub mod memories;
pub mod paging;
pub mod query;
pub mod rollups;
pub mod sessions;
pub mod styles;
