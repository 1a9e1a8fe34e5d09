//! A relay node: the circuits it takes part in.

pub mod circuit;
pub mod config;
pub mod entry;
pub mod exit;
pub mod handler;
pub mod keypair;
pub mod metrics;
pub mod middle;
pub mod view;
pub mod wizard;
