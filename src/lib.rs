//! Scan-session engine of a terminal WiFi adapter comparison tool: parsing
//! the scan tool's output, the session model and its validation, comparison
//! across sessions, history aggregation, and the state the event loop drives.
pub mod adapter;
pub mod app;
pub mod compare;
pub mod config;
pub mod export;
pub mod history;
pub mod listing;
pub mod order;
pub mod models;
pub mod scan;
pub mod stats;
pub mod store;
pub mod text;
pub mod time;
pub mod ui;
pub mod utils;
