//! Verified core of a terminal client for GitHub notifications.
pub mod app;
pub mod config;
pub mod github;
pub mod notifications;
pub mod text;
