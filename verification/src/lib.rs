pub mod chunking;
pub mod clusters;
pub mod debug;
pub mod delivery;
pub mod failure;
pub mod fires;
pub mod hub;
pub mod json;
pub mod laws;
pub mod memories;
pub mod migrate;
pub mod numbers;
pub mod ranking;
pub mod recall;
pub mod reminder_laws;
pub mod reminder_rows;
pub mod reminders;
pub mod server;
pub mod set_reminder;
pub mod text;
pub mod time;
pub mod tools;
