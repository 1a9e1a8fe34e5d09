//! The client: circuits of several hops and the streams on them.

pub mod builder;
pub mod circuit;
pub mod config;
pub mod directory;
pub mod metrics;
pub mod onion;
pub mod pool;
pub mod stream;
pub mod view;
pub mod wizard;
