//! The directory service: which nodes exist, and which paths lead through them.

pub mod config;
pub mod error;
pub mod metrics;
pub mod path;
pub mod registry;
pub mod service;
pub mod view;
