//! Website and application blocking rules, browser-extension enforcement,
//! and hosts-file section management, with their contracts.

pub mod external;
pub mod text;
pub mod types;
pub mod schedule;
pub mod block;
pub mod browser;
pub mod enforcement;
pub mod hosts;
pub mod settings;
pub mod order;
pub mod blocker;
pub mod commands;
pub mod protection;
pub mod events;
pub mod laws;
