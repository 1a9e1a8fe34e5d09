//! A small onion-routing network: the directory of relays, the relays, and the client.

pub mod bytes;
pub mod client;
pub mod crypto;
pub mod discovery;
pub mod display;
pub mod error;
pub mod form;
pub mod metrics;
pub mod net;
pub mod ntor;
pub mod order;
pub mod protocol;
pub mod relay;
pub mod text;
pub mod types;
pub mod web;
pub mod wire;
