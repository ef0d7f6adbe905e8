//! Supervision engine for a UPS attached over a USB HID link: device command
//! encoding and parsing, response caching, state-change detection, pipeline
//! scheduling and the delay / retry / repeat rules of actions.

pub mod models;
pub mod text;
pub mod commands;
pub mod cache;
pub mod executor;
pub mod device;
pub mod events;
pub mod watcher;
pub mod runner;
pub mod action;
pub mod placeholders;
